use torifune::files::{
    by_name, newest_first, FileInfo, MonthDirectoryInfo, classify_file_name, decode_thumbnail, file_kind, is_summary_file, is_year_dir_name,
    month_dir_number, numbered_name, parse_year_month, summary_file_name, thumbnail_data_url,
    thumbnail_file_name, thumbnail_payload, year_month_key, FileKind, ThumbnailError,
    YearMonthError,
};
use torifune::order::less_text;

#[test]
fn year_month_splits() {
    let ym = parse_year_month("202403").ok().unwrap();
    assert_eq!(ym.year, "2024");
    assert_eq!(ym.month, "03");
    assert_eq!(ym.month_number, 3);
}

#[test]
fn year_month_errors() {
    assert!(matches!(parse_year_month("2024"), Err(YearMonthError::Length)));
    assert!(matches!(parse_year_month("20a403"), Err(YearMonthError::Year)));
    assert!(matches!(parse_year_month("2024ab"), Err(YearMonthError::Month)));
    assert!(matches!(parse_year_month("202413"), Err(YearMonthError::MonthRange)));
    assert!(matches!(parse_year_month("202400"), Err(YearMonthError::MonthRange)));
    assert_eq!(YearMonthError::MonthRange.message(), "月は01から12の範囲で指定してください");
    assert_eq!(YearMonthError::Length.message(), "年月は YYYYMM 形式で指定してください");
}

#[test]
fn directory_names() {
    assert!(is_year_dir_name("2024"));
    assert!(!is_year_dir_name("20x4"));
    assert!(!is_year_dir_name("202"));
    assert_eq!(month_dir_number("07"), Some(7));
    assert_eq!(month_dir_number("12"), Some(12));
    assert_eq!(month_dir_number("13"), None);
    assert_eq!(month_dir_number("00"), None);
    assert_eq!(month_dir_number("7"), None);
    assert_eq!(year_month_key("2024", 3), "202403");
    assert_eq!(year_month_key("2024", 11), "202411");
    assert_eq!(summary_file_name("202403"), "202403-summary.xlsx");
}

#[test]
fn file_classification() {
    assert!(is_summary_file("202403-summary.json"));
    assert!(is_summary_file("202403-summary.xlsx"));
    assert!(!is_summary_file("summary.xlsx"));
    assert!(matches!(classify_file_name("a.JPG"), Some(FileKind::Image)));
    assert!(matches!(classify_file_name("b.Pdf"), Some(FileKind::Pdf)));
    assert!(matches!(classify_file_name("c.txt"), Some(FileKind::Other)));
    assert!(matches!(classify_file_name("noext"), Some(FileKind::Other)));
    assert!(classify_file_name("x-summary.json").is_none());
    assert!(matches!(file_kind("heif"), FileKind::Image));
    assert!(matches!(file_kind("PNG"), FileKind::Other));
}

#[test]
fn copy_names() {
    assert_eq!(numbered_name("scan", "png", 2), "scan_2.png");
    assert_eq!(numbered_name("scan", "", 1), "scan_1");
    assert_eq!(numbered_name("a.b", "pdf", 10), "a.b_10.pdf");
}

#[test]
fn thumbnails() {
    assert_eq!(thumbnail_file_name("r.png"), "r.png.thumbnail.png");
    assert_eq!(thumbnail_payload("data:image/jpeg;base64,QUJD"), Some("QUJD".to_string()));
    assert_eq!(thumbnail_payload("data:image/gif;base64,QUJD"), None);
    assert_eq!(decode_thumbnail("data:image/png;base64,QUJD").ok(), Some(b"ABC".to_vec()));
    assert!(matches!(decode_thumbnail("QUJD"), Err(ThumbnailError::NotDataUrl)));
    assert!(matches!(decode_thumbnail("data:image/webp;base64,!!"), Err(ThumbnailError::Decode(_))));
    assert_eq!(thumbnail_data_url(&b"ABC".to_vec()), "data:image/png;base64,QUJD");
}

fn month(ym: &str) -> MonthDirectoryInfo {
    MonthDirectoryInfo {
        year: ym[0..4].to_string(),
        month: ym[4..6].to_string(),
        year_month: ym.to_string(),
        path: String::new(),
        has_excel: false,
    }
}

fn file(name: &str) -> FileInfo {
    FileInfo { name: name.to_string(), path: String::new(), is_image: true, is_pdf: false, size: 0 }
}

#[test]
fn months_sort_newest_first() {
    let sorted = newest_first(vec![month("202301"), month("202412"), month("202405"), month("202301")]);
    let keys: Vec<String> = sorted.into_iter().map(|m| m.year_month).collect();
    assert_eq!(keys, vec!["202412", "202405", "202301", "202301"]);
    assert!(newest_first(Vec::new()).is_empty());
}

#[test]
fn files_sort_by_name() {
    let sorted = by_name(vec![file("b.png"), file("a.pdf"), file("B.png"), file("a")]);
    let names: Vec<String> = sorted.into_iter().map(|f| f.name).collect();
    assert_eq!(names, vec!["B.png", "a", "a.pdf", "b.png"]);
}

#[test]
fn text_order_matches_string_order() {
    for (a, b) in [("a", "b"), ("ab", "a"), ("", "x"), ("é", "z"), ("same", "same")] {
        assert_eq!(less_text(&a.to_string(), &b.to_string()), a < b);
    }
}

#[test]
fn thumbnail_url_pads_short_tails() {
    assert_eq!(thumbnail_data_url(&vec![0xff]), "data:image/png;base64,/w==");
    assert_eq!(thumbnail_data_url(&vec![0xfb, 0xef]), "data:image/png;base64,++8=");
    assert_eq!(thumbnail_data_url(&Vec::new()), "data:image/png;base64,");
}
