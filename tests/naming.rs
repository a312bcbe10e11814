use wizards::image_name::{image_file_name, stored_file_name, upload_extension};

#[test]
fn stored_name_joins_time_id_and_extension() {
    assert_eq!(stored_file_name(1700000000123, 42, "jpeg"), "170000000012342.jpeg");
    assert_eq!(stored_file_name(0, 0, "png"), "00.png");
    assert_eq!(stored_file_name(5, -3, "png"), "5-3.png");
    assert_eq!(stored_file_name(u128::MAX, i32::MIN, "x"), format!("{}{}.x", u128::MAX, i32::MIN));
}

#[test]
fn extension_comes_from_the_upload_name() {
    assert_eq!(upload_extension(Some("wiz.png")), "png");
    assert_eq!(upload_extension(Some("archive.tar.gz")), "gz");
    assert_eq!(upload_extension(Some("README")), "png");
    assert_eq!(upload_extension(Some(".bashrc")), "png");
    assert_eq!(upload_extension(None), "png");
}

#[test]
fn image_file_name_uses_upload_extension() {
    assert_eq!(image_file_name(1700000000000, 1, Some("wiz.jpg")), "17000000000001.jpg");
    assert_eq!(image_file_name(12, 3, Some("photo")), "123.png");
    assert_eq!(image_file_name(12, 3, None), "123.png");
}
