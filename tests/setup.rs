use reflector::layout::{PoolError, PoolLayout};
use reflector::setup::{
    PortSetup, ReflectorConfig, SetupError, SetupStage, SetupState, DEFAULT_MAX_BURST,
};

#[test]
fn standard_config_is_valid() {
    let c = ReflectorConfig::standard();
    assert!(c.is_valid());
    assert_eq!(c.max_burst, DEFAULT_MAX_BURST);
    assert_eq!(c.num_buffers, 8192);
    assert_eq!(c.ring_size, 2048);
    assert_eq!(c.alignment, 4096);
    let l = PoolLayout::plan(c.num_buffers, c.payload_size, c.alignment).unwrap();
    assert_eq!(l.stride, 2048);
}

#[test]
fn invalid_configs_are_refused() {
    let mut c = ReflectorConfig::standard();
    c.max_burst = 0;
    assert!(!c.is_valid());
    let mut c = ReflectorConfig::standard();
    c.num_buffers = 0;
    assert!(!c.is_valid());
    let mut c = ReflectorConfig::standard();
    c.cache_size = 9000;
    assert!(!c.is_valid());
}

#[test]
fn every_stage_succeeding_reaches_ready() {
    let mut s = PortSetup::new();
    assert_eq!(s.state(), SetupState::At(SetupStage::ValidatePort));
    assert_eq!(s.on_status(1), Ok(()));
    let mut steps = 1;
    while let SetupState::At(_) = s.state() {
        assert_eq!(s.on_status(0), Ok(()));
        steps += 1;
    }
    assert_eq!(steps, 12);
    assert_eq!(s.state(), SetupState::Ready);
}

#[test]
fn unknown_port_fails_first() {
    let mut s = PortSetup::new();
    let e = SetupError { stage: SetupStage::ValidatePort, code: -1 };
    assert_eq!(s.on_status(0), Err(e));
    assert_eq!(s.state(), SetupState::Failed(e));
}

#[test]
fn nonzero_configure_status_fails() {
    let mut s = PortSetup::new();
    for st in [1, 0, 0, 0, 0] {
        assert_eq!(s.on_status(st), Ok(()));
    }
    assert_eq!(s.state(), SetupState::At(SetupStage::Configure));
    let e = SetupError { stage: SetupStage::Configure, code: 5 };
    assert_eq!(s.on_status(5), Err(e));
    assert_eq!(s.state(), SetupState::Failed(e));
}

#[test]
fn negative_queue_status_fails_and_positive_passes() {
    let mut s = PortSetup::new();
    for st in [1, 0, 0, 3, 0, 0, 0] {
        assert_eq!(s.on_status(st), Ok(()));
    }
    assert_eq!(s.state(), SetupState::At(SetupStage::RxQueue));
    assert_eq!(
        s.on_status(-22),
        Err(SetupError { stage: SetupStage::RxQueue, code: -22 })
    );
}

#[test]
fn pool_exhaustion_stops_before_any_queue() {
    let plan = PoolLayout::plan(u32::MAX, 1518, 1usize << 62);
    assert!(matches!(plan, Err(PoolError::Allocation)));
    let mut s = PortSetup::new();
    assert_eq!(s.on_status(1), Ok(()));
    assert_eq!(s.state(), SetupState::At(SetupStage::AllocateRegion));
    let status = if plan.is_ok() { 0 } else { -1 };
    let e = SetupError { stage: SetupStage::AllocateRegion, code: -1 };
    assert_eq!(s.on_status(status), Err(e));
    assert_eq!(s.state(), SetupState::Failed(e));
}
