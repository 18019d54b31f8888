use khora_codegen_llvm::effects::{
    channel_operation, fiber_operation, nursery_operation, region_operation, shared_fn_operation, shared_operation,
    trampoline, when_full_number, ChannelOperation, FiberOperation, NurseryOperation, RegionOperation,
    SharedFnOperation, SharedOperation, Trampoline, WhenFull,
};

#[test]
fn regions_and_cells() {
    assert_eq!(region_operation("root", 0), Ok(RegionOperation::Root));
    assert_eq!(region_operation("defer", 2), Ok(RegionOperation::Defer));
    assert_eq!(
        region_operation("close", 1),
        Err("`Region::close` is not a region operation the backend knows".to_string())
    );
    assert_eq!(shared_operation("set", 2), Ok(SharedOperation::Put));
    assert_eq!(shared_operation("modify", 2), Ok(SharedOperation::Modify));
    assert_eq!(shared_operation("get", 2), Err("`Shared::get` is not an operation the backend knows".to_string()));
    assert_eq!(shared_fn_operation("call", 2), Ok(SharedFnOperation::Call));
    assert_eq!(shared_fn_operation("of", 2), Err("`SharedFn::of` is not an operation the backend knows".to_string()));
}

#[test]
fn a_channel_is_told_what_a_full_send_does() {
    assert_eq!(channel_operation("bounded", 1), Ok(ChannelOperation::Open(WhenFull::Wait)));
    assert_eq!(channel_operation("dropping", 1), Ok(ChannelOperation::Open(WhenFull::DropNewest)));
    assert_eq!(channel_operation("sliding", 1), Ok(ChannelOperation::Open(WhenFull::DropOldest)));
    assert_eq!(when_full_number(WhenFull::Wait), 0);
    assert_eq!(when_full_number(WhenFull::DropNewest), 1);
    assert_eq!(when_full_number(WhenFull::DropOldest), 2);
    assert_eq!(channel_operation("poll", 1), Ok(ChannelOperation::Poll));
    assert_eq!(
        channel_operation("send", 1),
        Err("`Channel::send` is not a channel operation the backend knows".to_string())
    );
}

#[test]
fn fibers_and_nurseries() {
    assert_eq!(fiber_operation("spawn", 1), Ok(FiberOperation::Spawn));
    assert_eq!(fiber_operation("cancel_within", 2), Ok(FiberOperation::CancelWithin));
    assert_eq!(fiber_operation("join", 1), Ok(FiberOperation::Join));
    assert_eq!(fiber_operation("kill", 1), Err("`Fiber::kill` is not a fiber operation the backend knows".to_string()));
    assert_eq!(trampoline(true, false), Trampoline::Tagged);
    assert_eq!(trampoline(false, false), Trampoline::Answered { word: true });
    assert_eq!(trampoline(false, true), Trampoline::Answered { word: false });
    assert_eq!(nursery_operation("open", 0), Ok(NurseryOperation::Open));
    assert_eq!(nursery_operation("adopt", 2), Ok(NurseryOperation::Adopt));
    assert_eq!(
        nursery_operation("open", 1),
        Err("`Fibers::open` is not a nursery operation the backend knows".to_string())
    );
}
