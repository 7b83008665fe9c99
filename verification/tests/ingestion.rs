use kepce_api::calendar::{date_from_ymd, CalendarDate};
use kepce_api::ingestion::{
    check_period, file_extension, submission_notes, validate_file, validate_submission, verify_file_signature,
    IngestedFile, MenuSubmissionInput, MAX_FILES, MAX_FILE_SIZE,
};
use kepce_api::service_errors::IngestionError;

fn date(y: i32, m: u32, d: u32) -> CalendarDate {
    date_from_ymd(y, m, d).unwrap()
}

fn png(name: &str) -> IngestedFile {
    IngestedFile { name: name.into(), content_type: Some("image/png".into()), data: vec![137, 80, 78, 71, 13, 10, 26, 10, 0] }
}

fn message(e: IngestionError) -> String {
    match e {
        IngestionError::InvalidInput(m) => m,
        IngestionError::InvalidFileType(m) => m,
        IngestionError::FileTooLarge => "too large".into(),
        IngestionError::TooManyFiles => "too many".into(),
        _ => "other".into(),
    }
}

#[test]
fn signatures() {
    assert!(verify_file_signature(&[0xFF, 0xD8, 0xFF], "jpg"));
    assert!(verify_file_signature(&[0xFF, 0xD8], "jpeg"));
    assert!(verify_file_signature(&[0x25, 0x50, 0x44, 0x46, 0x2D], "pdf"));
    assert!(verify_file_signature(&[0x50, 0x4B, 0x03, 0x04], "xlsx"));
    assert!(verify_file_signature(&[0xD0, 0xCF, 17, 224, 161, 177, 26, 225], "xls"));
    assert!(!verify_file_signature(&[0xFF], "jpg"));
    assert!(!verify_file_signature(&[0x25, 0x50, 0x44, 0x46], "png"));
    assert!(!verify_file_signature(&[0x25, 0x50, 0x44, 0x46], "gif"));
}

#[test]
fn extensions() {
    assert_eq!(file_extension("menu.Final.PDF"), "pdf");
    assert_eq!(file_extension("README"), "readme");
    assert_eq!(file_extension("arsiv."), "");
}

#[test]
fn files_are_checked_in_order() {
    assert_eq!(validate_file(&png("ekim menüsü.png")).unwrap(), "ekim_men_s_.png");
    let mut big = png("a.png");
    big.data = vec![0u8; MAX_FILE_SIZE + 1];
    assert!(matches!(validate_file(&big), Err(IngestionError::FileTooLarge)));
    assert_eq!(message(validate_file(&png("a.gif")).unwrap_err()), "a.gif");
    let mut no_type = png("a.png");
    no_type.content_type = None;
    assert_eq!(message(validate_file(&no_type).unwrap_err()), "a.png: MIME tipi eksik");
    let mut wrong_type = png("a.png");
    wrong_type.content_type = Some("text/html".into());
    assert_eq!(message(validate_file(&wrong_type).unwrap_err()), "a.png: Geçersiz MIME tipi (text/html)");
    let mut fake = png("a.png");
    fake.data = vec![1, 2, 3];
    assert_eq!(message(validate_file(&fake).unwrap_err()), "a.png: Dosya içeriği doğrulaması başarısız (Magic Bytes uyuşmazlığı)");
    assert_eq!(validate_file(&png("../../etc/x.png")).unwrap(), "x.png");
    assert_eq!(message(validate_file(&png("a..b.png")).unwrap_err()), "a..b.png");
}

#[test]
fn months_and_notes() {
    let today = date(2026, 12, 15);
    assert!(check_period(2027, 1, &None, today).is_ok());
    assert_eq!(message(check_period(2027, 2, &None, today).unwrap_err()), "Menü tarihi 2026-01 ile 2027-01 arasında olmalıdır");
    assert_eq!(message(check_period(2025, 12, &None, today).unwrap_err()), "Menü tarihi 2026-01 ile 2027-01 arasında olmalıdır");
    assert_eq!(message(check_period(2026, 13, &None, today).unwrap_err()), "Geçersiz ay (1-12 arasında olmalıdır)");
    assert_eq!(message(check_period(2026, 0, &None, today).unwrap_err()), "Geçersiz ay (1-12 arasında olmalıdır)");
    let long = Some("ş".repeat(501));
    assert_eq!(message(check_period(2026, 5, &long, today).unwrap_err()), "Notlar en fazla 1000 karakter olabilir");
    assert!(check_period(2026, 5, &Some("ş".repeat(500)), today).is_ok());
}

#[test]
fn submissions() {
    let today = date(2026, 5, 1);
    let input = |files: Vec<IngestedFile>| MenuSubmissionInput { city_slug: "ankara".into(), year: 2026, month: 5, notes: None, files };
    assert_eq!(validate_submission(&input(vec![png("a.png"), png("b c.png")]), today).unwrap(), vec!["a.png".to_string(), "b_c.png".to_string()]);
    assert_eq!(message(validate_submission(&input(vec![]), today).unwrap_err()), "En az bir dosya gönderilmelidir");
    let many: Vec<IngestedFile> = (0..MAX_FILES + 1).map(|i| png(&format!("{}.png", i))).collect();
    assert!(matches!(validate_submission(&input(many), today), Err(IngestionError::TooManyFiles)));
    assert_eq!(message(validate_submission(&input(vec![png("a.png"), png("b.exe")]), today).unwrap_err()), "b.exe");
}

#[test]
fn notes_list_the_files() {
    let files = vec!["a.png".to_string(), "b.pdf".to_string()];
    assert_eq!(submission_notes(&None, &files), "Dosyalar: a.png, b.pdf");
    assert_eq!(submission_notes(&Some("  ".into()), &files), "Dosyalar: a.png, b.pdf");
    assert_eq!(submission_notes(&Some("Ekim".into()), &files), "Ekim\nDosyalar: a.png, b.pdf");
}
