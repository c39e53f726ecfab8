use where_cmd::format::{decimal_string, filesystem_name, format_mode, hex_upper_string};

#[test]
fn mode_of_regular_executable() {
    assert_eq!(format_mode(0o100755), "-rwxr-xr-x");
}

#[test]
fn mode_of_symlink() {
    assert_eq!(format_mode(0o120777), "lrwxrwxrwx");
}

#[test]
fn filesystem_names() {
    assert_eq!(filesystem_name(0x9123683E), "btrfs");
    assert_eq!(filesystem_name(0xEF53), "ext4/ext3/ext2");
    assert_eq!(filesystem_name(0xABCD), "Unknown (0xABCD)");
}

#[test]
fn numerals() {
    assert_eq!(decimal_string(0), "0");
    assert_eq!(decimal_string(1000), "1000");
    assert_eq!(hex_upper_string(255), "FF");
}
