use resol_vbus::{Header, Telegram, Timestamp};

fn telegram(command: u8, protocol_version: u8) -> Telegram {
    Telegram {
        header: Header {
            timestamp: Timestamp::from_secs(1485688933),
            channel: 0x11,
            destination_address: 0x1213,
            source_address: 0x1415,
            protocol_version,
        },
        command,
        frame_data: [0u8; 21],
    }
}

#[test]
fn test_frame_count_for_command() {
    assert_eq!(0, Telegram::frame_count_for_command(0x1F));
    assert_eq!(1, Telegram::frame_count_for_command(0x3F));
    assert_eq!(2, Telegram::frame_count_for_command(0x5F));
    assert_eq!(3, Telegram::frame_count_for_command(0x7F));
}

#[test]
fn test_frame_count() {
    let tgram = telegram(0x37, 0x36);
    assert_eq!(1, tgram.frame_count());
}

#[test]
fn test_to_id_string() {
    let tgram = telegram(0x17, 0x36);
    assert_eq!("11_1213_1415_36_17", tgram.to_id_string());
}

#[test]
fn frame_count_of_the_largest_command() {
    assert_eq!(7, Telegram::frame_count_for_command(0xFF));
    assert_eq!(0, Telegram::frame_count_for_command(0x00));
}
