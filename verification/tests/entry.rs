use khora_codegen_llvm::driver::Entry;
use khora_codegen_llvm::entry::{
    exports, library_error, main_plan, publish_once, runner_blocks, symbol_for, Block, BlockKind, ExitCode, MainPlan, MainReturn,
    MainSignature, Specialization,
};

fn spec(function: &str, symbol: &str, is_extern: bool, has_body: bool) -> Specialization {
    Specialization { function: function.to_string(), symbol: symbol.to_string(), is_extern, has_body }
}

fn block(kind: BlockKind, key: &str, name: &str) -> Block {
    Block { kind, key: key.to_string(), name: name.to_string() }
}

fn program() -> Vec<Specialization> {
    vec![
        spec("main", "kh$main", false, true),
        spec("price", "kh$price", true, true),
        spec("close", "close", true, false),
        spec("test$0", "kh$test$0", false, true),
        spec("bench$1", "kh$bench$1", false, true),
        spec("total", "kh$total", true, true),
    ]
}

#[test]
fn the_entry_is_the_first_main() {
    assert_eq!(symbol_for(&program(), "main").as_deref(), Some("kh$main"));
    assert_eq!(symbol_for(&program(), "nothing"), None);
}

#[test]
fn a_library_publishes_its_defined_externs_in_order() {
    let out = exports(&program());
    assert_eq!(
        out,
        [("price".to_string(), "kh$price".to_string()), ("total".to_string(), "kh$total".to_string())],
        "`close` has no body: it is an import"
    );
    assert_eq!(library_error(Entry::Library, out.len()), None);
    assert_eq!(
        library_error(Entry::Library, 0).as_deref(),
        Some(
            "a library has no `pub extern fn`, so nothing could call it. Mark the functions that are its C \
             interface \u{2014} `docs/design/c-export.md`"
        )
    );
    assert_eq!(library_error(Entry::Main, 0), None);
}

#[test]
fn a_runner_gets_the_blocks_of_its_kind_in_written_order() {
    let blocks = vec![
        block(BlockKind::Test, "test$0", "adds"),
        block(BlockKind::Bench, "bench$1", "sums fast"),
        block(BlockKind::Test, "test$9", "never compiled"),
    ];
    assert_eq!(runner_blocks(Entry::Tests, &blocks, &program()), [("kh$test$0".to_string(), "adds".to_string())]);
    assert_eq!(
        runner_blocks(Entry::Benches, &blocks, &program()),
        [("kh$bench$1".to_string(), "sums fast".to_string())]
    );
}

#[test]
fn main_is_checked_before_it_is_called() {
    let int_main = MainSignature { params: 0, ret: MainReturn::Int, raises: false };
    assert_eq!(main_plan(Some(int_main), true, "Int"), Ok(MainPlan { raises: false, code: ExitCode::Truncated }));
    let unit_main = MainSignature { params: 0, ret: MainReturn::Unit, raises: true };
    assert_eq!(main_plan(Some(unit_main), true, "()"), Ok(MainPlan { raises: true, code: ExitCode::Zero }));
    assert_eq!(
        main_plan(None, false, ""),
        Err("this program has no `main` function, so there is nothing to run".to_string())
    );
    assert_eq!(
        main_plan(Some(int_main), false, "Int"),
        Err("`main` is declared without a body, so there is nothing to run".to_string())
    );
    let with_args = MainSignature { params: 1, ret: MainReturn::Int, raises: false };
    assert_eq!(
        main_plan(Some(with_args), true, "Int"),
        Err("`main` cannot take parameters yet; command-line arguments arrive with the standard library".to_string())
    );
    let text_main = MainSignature { params: 0, ret: MainReturn::Other, raises: false };
    assert_eq!(
        main_plan(Some(text_main), true, "String"),
        Err("`main` returns `String`, but an entry point must return `Int` or `()`".to_string())
    );
}

#[test]
fn a_main_returning_two_to_the_32_exits_zero() {
    // The status a process carries is the result's low 32 bits, read signed.
    let int_main = MainSignature { params: 0, ret: MainReturn::Int, raises: false };
    let plan = main_plan(Some(int_main), true, "Int").unwrap();
    let status = |result: i64| match plan.code {
        ExitCode::Truncated => result as i32,
        ExitCode::Zero => 0,
    };
    assert_eq!(status(1 << 32), 0);
    assert_eq!(status(-1), -1);
    assert_eq!(status((1 << 32) + 7), 7);
    assert_eq!(status(3), 3);
}

#[test]
fn two_functions_cannot_publish_one_symbol() {
    let pair = |a: &str, b: &str| (a.to_string(), b.to_string());
    let exports = vec![
        pair("price", "kh$shop$price"),
        pair("total", "kh$shop$total"),
        pair("price", "kh$stock$price"),
        pair("price", "kh$misc$price"),
    ];
    let (published, errors) = publish_once(&exports);
    assert_eq!(published, [pair("price", "kh$shop$price"), pair("total", "kh$shop$total")]);
    assert_eq!(
        errors,
        [
            "two functions are exported to C as `price` \u{2014} `kh$shop$price` and `kh$stock$price`. A C symbol \
             has no module to be qualified by, so one of them has to be renamed",
            "two functions are exported to C as `price` \u{2014} `kh$stock$price` and `kh$misc$price`. A C symbol \
             has no module to be qualified by, so one of them has to be renamed",
        ]
    );
    let (published, errors) = publish_once(&vec![pair("a", "kh$a"), pair("b", "kh$b")]);
    assert_eq!(published.len(), 2);
    assert!(errors.is_empty());
}
