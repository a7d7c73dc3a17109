use umq::error::Error;
use umq::name::{QueueName, DEFAULT_MAX_DEPTH, DEFAULT_MAX_SIZE, MAX_NAME_BYTES};

#[test]
fn plain_name_is_accepted() {
    let name = QueueName::new("/queue").unwrap();
    assert_eq!(name.as_str(), "/queue");
}

#[test]
fn accepted_name_is_what_the_queue_layer_accepts() {
    let name = QueueName::new("/test-queue").unwrap();
    assert!(posix_mq::Name::new(name.as_str()).is_ok());
}

#[test]
fn name_without_leading_slash_is_invalid() {
    assert_eq!(QueueName::new("queue"), Err(Error::InvalidName));
}

#[test]
fn empty_name_is_invalid() {
    assert_eq!(QueueName::new(""), Err(Error::InvalidName));
}

#[test]
fn lone_slash_is_invalid() {
    assert_eq!(QueueName::new("/"), Err(Error::InvalidName));
}

#[test]
fn second_slash_is_invalid() {
    assert_eq!(QueueName::new("/a/b"), Err(Error::InvalidName));
    assert_eq!(QueueName::new("//"), Err(Error::InvalidName));
    assert_eq!(QueueName::new("/a/"), Err(Error::InvalidName));
}

#[test]
fn name_of_255_bytes_is_accepted() {
    let mut text = String::from("/");
    for _ in 0..254 {
        text.push('a');
    }
    assert_eq!(text.len(), MAX_NAME_BYTES);
    assert!(QueueName::new(&text).is_ok());
}

#[test]
fn name_of_256_bytes_is_invalid() {
    let mut text = String::from("/");
    for _ in 0..255 {
        text.push('a');
    }
    assert_eq!(text.len(), 256);
    assert_eq!(QueueName::new(&text), Err(Error::InvalidName));
}

#[test]
fn name_length_counts_bytes_not_characters() {
    // 127 two-byte characters after the slash: 255 bytes, 128 characters.
    let mut fits = String::from("/");
    for _ in 0..127 {
        fits.push('\u{e9}');
    }
    assert_eq!(fits.len(), 255);
    assert!(QueueName::new(&fits).is_ok());
    // One more character: 257 bytes, still fewer than 255 characters.
    let mut too_long = fits.clone();
    too_long.push('\u{e9}');
    assert_eq!(too_long.chars().count(), 129);
    assert_eq!(QueueName::new(&too_long), Err(Error::InvalidName));
}

#[test]
fn name_with_zero_byte_is_invalid() {
    assert_eq!(QueueName::new("/a\0b"), Err(Error::InvalidName));
    assert_eq!(QueueName::new("/\0"), Err(Error::InvalidName));
}

#[test]
fn cloned_name_keeps_its_text() {
    let name = QueueName::new("/copy").unwrap();
    let copy = name.clone();
    assert_eq!(copy.as_str(), "/copy");
    assert_eq!(copy, name);
}

#[test]
fn default_limits_are_one_message_of_128_bytes() {
    assert_eq!(DEFAULT_MAX_DEPTH, 1);
    assert_eq!(DEFAULT_MAX_SIZE, 128);
}
