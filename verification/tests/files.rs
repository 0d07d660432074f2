use phonet::{format_filename, get_min_filename};

#[test]
fn get_min_filename_works() {
    assert_eq!(get_min_filename(""), "");
    assert_eq!(get_min_filename("phonet"), "min.phonet");
    assert_eq!(get_min_filename("myfile.phonet"), "myfile.min.phonet");
    assert_eq!(get_min_filename("one.two.phonet"), "one.two.min.phonet");
}

#[test]
fn format_filename_works() {
    assert_eq!(format_filename("phonet".to_string()), "phonet");
    assert_eq!(format_filename("abc.phonet".to_string()), "abc.phonet");
    assert_eq!(format_filename("abc.".to_string()), "abc.phonet");
    assert_eq!(format_filename("src/".to_string()), "src/phonet");
    assert_eq!(format_filename("src".to_string()), "src");
    assert_eq!(format_filename("src/abc.".to_string()), "src/abc.phonet");
}
