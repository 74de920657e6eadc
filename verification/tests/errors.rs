use rustberrypi::errors::CommunicationError;

#[test]
fn every_error_has_its_own_description() {
    let all = [
        CommunicationError::BusError,
        CommunicationError::InvalidPin(3),
        CommunicationError::InvalidBrightness(16),
        CommunicationError::InvalidParameter,
        CommunicationError::BitmapFormatError,
        CommunicationError::ReadError,
        CommunicationError::WriteError,
    ];
    for (i, a) in all.iter().enumerate() {
        assert!(!a.description().is_empty());
        for (j, b) in all.iter().enumerate() {
            assert_eq!(i == j, a.description() == b.description());
        }
    }
    assert_eq!(
        CommunicationError::InvalidBrightness(16).description(),
        "the brightness level is above 15"
    );
}
