use yolo_mark_rs::arguments::{argument_paths, check_paths, has_names_extension, ArgumentError, Arguments, PathKind};
use yolo_mark_rs::image_file::{is_supported_image_type, Error, ImageFile};
use yolo_mark_rs::images::Images;
use yolo_mark_rs::keyboard_mapping::{Action, ZeroToNine};
use yolo_mark_rs::names::Names;
use yolo_mark_rs::settings::{ImagesDirectorySetting, NamesFileSetting};

fn file(path: &str) -> ImageFile {
    ImageFile::new(path.to_string(), true).unwrap()
}

#[test]
fn image_file_accepts_jpeg_extensions() {
    assert_eq!(file("dir/a.jpg").as_path(), "dir/a.jpg");
    assert_eq!(file("dir/b.JPG").as_path(), "dir/b.JPG");
    assert_eq!(file("dir/c.JPEG").as_path(), "dir/c.JPEG");
}

#[test]
fn image_file_rejects_other_extensions() {
    assert_eq!(ImageFile::new("dir/a.png".to_string(), true).unwrap_err(), Error::NotAnImage);
    assert_eq!(ImageFile::new("dir/a.jpeg".to_string(), true).unwrap_err(), Error::NotAnImage);
    assert_eq!(ImageFile::new("dir/jpg".to_string(), true).unwrap_err(), Error::NotAnImage);
    assert_eq!(ImageFile::new("dir/.jpg".to_string(), true).unwrap_err(), Error::NotAnImage);
}

#[test]
fn image_file_rejects_non_files() {
    assert_eq!(ImageFile::new("dir/a.jpg".to_string(), false).unwrap_err(), Error::NotAFile);
    assert_eq!(ImageFile::new("dir/a.png".to_string(), false).unwrap_err(), Error::NotAFile);
}

#[test]
fn supported_image_types() {
    assert!(is_supported_image_type(&"jpg".to_string()));
    assert!(is_supported_image_type(&"JPEG".to_string()));
    assert!(!is_supported_image_type(&"Jpg".to_string()));
    assert!(!is_supported_image_type(&String::new()));
}

#[test]
fn images_are_sorted_by_path() {
    let images = Images::from_files(vec![file("d/c.jpg"), file("d/a.jpg"), file("d/b.jpg")]);
    assert_eq!(images.len(), 3);
    let paths: Vec<String> = images.as_slice().iter().map(|i| i.img.as_path()).collect();
    assert_eq!(paths, vec!["d/a.jpg", "d/b.jpg", "d/c.jpg"]);
    assert!(images.as_slice().iter().all(|i| !i.marked));
    assert_eq!(images.get(1).unwrap().as_path(), "d/b.jpg");
    assert!(images.get(3).is_none());
    assert_eq!(images.index(2).img.as_path(), "d/c.jpg");
}

#[test]
fn empty_image_list() {
    let images = Images::from_files(Vec::new());
    assert_eq!(images.len(), 0);
    assert!(images.get(0).is_none());
}

#[test]
fn arguments_keep_image_files_only() {
    let entries = vec![
        ("d/z.jpg".to_string(), true),
        ("d/notes.txt".to_string(), true),
        ("d/sub.jpg".to_string(), false),
        ("d/a.JPG".to_string(), true),
    ];
    let args = Arguments::new(entries, vec!["cat".to_string(), "dog".to_string()]);
    let paths: Vec<String> = args.image_dir.as_slice().iter().map(|i| i.img.as_path()).collect();
    assert_eq!(paths, vec!["d/a.JPG", "d/z.jpg"]);
    assert_eq!(args.names, vec!["cat", "dog"]);
}

#[test]
fn argument_paths_need_two_arguments() {
    let args = vec!["prog".to_string(), "imgs".to_string(), "x.names".to_string(), "extra".to_string()];
    let (dir, names) = argument_paths(&args).unwrap();
    assert_eq!((dir.as_str(), names.as_str()), ("imgs", "x.names"));
    match argument_paths(&vec!["prog".to_string(), "imgs".to_string()]) {
        Err(ArgumentError::InvalidNumber(n)) => assert_eq!(n, "2"),
        _ => panic!("expected InvalidNumber"),
    }
}

#[test]
fn check_paths_in_order() {
    let d = "imgs".to_string();
    let n = "x.names".to_string();
    assert!(check_paths(&d, &n, PathKind::Directory, PathKind::File).is_ok());
    match check_paths(&d, &n, PathKind::Missing, PathKind::Missing) {
        Err(ArgumentError::FileDoesNotExist(p)) => assert_eq!(p, "imgs"),
        _ => panic!("expected FileDoesNotExist"),
    }
    match check_paths(&d, &n, PathKind::File, PathKind::Missing) {
        Err(ArgumentError::FileDoesNotExist(p)) => assert_eq!(p, "x.names"),
        _ => panic!("expected FileDoesNotExist"),
    }
    match check_paths(&d, &n, PathKind::File, PathKind::File) {
        Err(ArgumentError::InvalidFileType(p)) => assert_eq!(p, "imgs"),
        _ => panic!("expected InvalidFileType"),
    }
    match check_paths(&d, &n, PathKind::Directory, PathKind::Directory) {
        Err(ArgumentError::InvalidFileType(p)) => assert_eq!(p, "x.names"),
        _ => panic!("expected InvalidFileType"),
    }
    match check_paths(&d, &"x.txt".to_string(), PathKind::Directory, PathKind::File) {
        Err(ArgumentError::InvalidFileType(p)) => assert_eq!(p, "x.txt"),
        _ => panic!("expected InvalidFileType"),
    }
}

#[test]
fn names_extension() {
    assert!(has_names_extension(&"data/obj.names".to_string()));
    assert!(!has_names_extension(&"data/obj.name".to_string()));
    assert!(!has_names_extension(&"names".to_string()));
}

#[test]
fn zero_to_nine_bounds() {
    assert_eq!(ZeroToNine::new(0), Some(ZeroToNine(0)));
    assert_eq!(ZeroToNine::new(9), Some(ZeroToNine(9)));
    assert_eq!(ZeroToNine::new(10), None);
    let digits = ZeroToNine::iter();
    assert_eq!(digits.len(), 10);
    assert_eq!(digits[7], ZeroToNine(7));
    assert!(Action::NameNumber(ZeroToNine(1)) < Action::NameNumber(ZeroToNine(2)));
}

#[test]
fn names_in_order() {
    let names = Names::new(vec!["a".to_string(), "b".to_string()]);
    assert_eq!(names.len(), 2);
    assert_eq!(names.as_slice()[1], "b");
}

#[test]
fn directory_setting_validity() {
    let s = ImagesDirectorySetting { images_dir: "imgs".to_string() };
    assert_eq!(s.display_validity(PathKind::Missing), "directory does not exist");
    assert_eq!(s.display_validity(PathKind::File), "file is not a directory");
    assert_eq!(s.display_validity(PathKind::Directory), "\u{2705}");
    assert!(s.is_valid(PathKind::Directory));
    assert!(!s.is_valid(PathKind::File));
}

#[test]
fn names_setting_validity() {
    let good = NamesFileSetting { names_file: "obj.names".to_string() };
    assert_eq!(good.display_validity(PathKind::Missing), "path does not exist");
    assert_eq!(good.display_validity(PathKind::File), "\u{2705}");
    let txt = NamesFileSetting { names_file: "obj.txt".to_string() };
    assert_eq!(txt.display_validity(PathKind::File), "path does not end with .names");
    let dir = NamesFileSetting { names_file: "data".to_string() };
    assert_eq!(dir.display_validity(PathKind::Directory), "path is a directory");
    assert_eq!(dir.display_validity(PathKind::File), "path does not have an extension");
}
