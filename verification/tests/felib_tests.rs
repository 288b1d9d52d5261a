use cliq::Dig2;
use cliq::FELibReturn;
use cliq::ReadAction;
use cliq::decode_text;
use cliq::decode_unit;
use cliq::read_action;

fn facade() -> Dig2 {
    Dig2 {
        url: String::from("dig2://board0"),
        endpoint: String::from("scope"),
        handle: 0,
        ep_handle: 0,
        ep_folder_handle: 0,
        is_connected: false,
        is_ep_configured: false,
    }
}

#[test]
fn every_status_code_maps_to_its_variant() {
    assert_eq!(FELibReturn::from(0), FELibReturn::Success);
    assert_eq!(FELibReturn::from(-1), FELibReturn::Generic);
    assert_eq!(FELibReturn::from(-2), FELibReturn::InvalidParam);
    assert_eq!(FELibReturn::from(-3), FELibReturn::DevAlreadyOpen);
    assert_eq!(FELibReturn::from(-4), FELibReturn::DevNotFound);
    assert_eq!(FELibReturn::from(-5), FELibReturn::MaxDev);
    assert_eq!(FELibReturn::from(-6), FELibReturn::Command);
    assert_eq!(FELibReturn::from(-7), FELibReturn::Internal);
    assert_eq!(FELibReturn::from(-8), FELibReturn::NotImplemented);
    assert_eq!(FELibReturn::from(-9), FELibReturn::InvalidHandle);
    assert_eq!(FELibReturn::from(-10), FELibReturn::DevLibNotAvailable);
    assert_eq!(FELibReturn::from(-11), FELibReturn::Timeout);
    assert_eq!(FELibReturn::from(-12), FELibReturn::Stop);
    assert_eq!(FELibReturn::from(-13), FELibReturn::Disabled);
    assert_eq!(FELibReturn::from(-14), FELibReturn::BadLibVer);
    assert_eq!(FELibReturn::from(-15), FELibReturn::Comm);
    assert_eq!(FELibReturn::from(1), FELibReturn::Unknown);
    assert_eq!(FELibReturn::from(-100), FELibReturn::Unknown);
}

#[test]
fn unit_outcomes_decode_by_status() {
    assert!(decode_unit(0).is_ok());
    assert_eq!(decode_unit(-6).unwrap_err(), FELibReturn::Command);
    assert_eq!(decode_unit(-11).unwrap_err(), FELibReturn::Timeout);
}

#[test]
fn text_outcomes_drop_the_nul_padding() {
    let raw = vec![b'1', b'.', b'2', 0, 0, 0];
    assert_eq!(decode_text(0, raw).unwrap(), vec![b'1', b'.', b'2']);
    let raw = vec![0, b'x', 0, b'y'];
    assert_eq!(decode_text(0, raw).unwrap(), vec![b'x', b'y']);
    assert_eq!(decode_text(-9, vec![b'a']).unwrap_err(), FELibReturn::InvalidHandle);
}

#[test]
fn opening_adopts_the_handle_only_on_success() {
    let mut d = facade();
    assert_eq!(d.open(-4, 99).unwrap_err(), FELibReturn::DevNotFound);
    assert!(!d.is_connected);
    assert_eq!(d.handle, 0);
    assert!(d.open(0, 99).is_ok());
    assert!(d.is_connected);
    assert_eq!(d.handle, 99);
}

#[test]
fn handle_resolution_writes_through_only_on_success() {
    let d = facade();
    let mut h: u64 = 5;
    assert_eq!(d.gethandle(-9, 77, &mut h).unwrap_err(), FELibReturn::InvalidHandle);
    assert_eq!(h, 5);
    assert!(d.gethandle(0, 77, &mut h).is_ok());
    assert_eq!(h, 77);
    let mut p: u64 = 0;
    assert!(d.getparenthandle(0, 33, &mut p).is_ok());
    assert_eq!(p, 33);
}

#[test]
fn endpoint_configuration_reports_the_first_failing_step() {
    let mut d = facade();
    assert_eq!(
        d.configure_endpoint(-9, 1, 0, 2, 0, 0).unwrap_err(),
        FELibReturn::InvalidHandle
    );
    assert!(!d.is_ep_configured);
    assert_eq!(
        d.configure_endpoint(0, 1, -2, 2, -6, 0).unwrap_err(),
        FELibReturn::InvalidParam
    );
    assert_eq!(
        d.configure_endpoint(0, 1, 0, 2, -6, -1).unwrap_err(),
        FELibReturn::Command
    );
    assert_eq!(
        d.configure_endpoint(0, 1, 0, 2, 0, -1).unwrap_err(),
        FELibReturn::Generic
    );
    assert!(d.configure_endpoint(0, 1, 0, 2, 0, 0).is_ok());
    assert!(d.is_ep_configured);
    assert_eq!(d.ep_handle, 1);
    assert_eq!(d.ep_folder_handle, 2);
}

#[test]
fn the_read_loop_reacts_to_each_status() {
    assert_eq!(read_action(FELibReturn::Success), ReadAction::Emit);
    assert_eq!(read_action(FELibReturn::Timeout), ReadAction::Retry);
    assert_eq!(read_action(FELibReturn::Stop), ReadAction::Exit);
    assert_eq!(read_action(FELibReturn::Comm), ReadAction::Ignore);
    assert_eq!(read_action(FELibReturn::Generic), ReadAction::Ignore);
}
