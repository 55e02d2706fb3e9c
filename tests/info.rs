use pdf2image::{encryption_of_words, extract_pdf_info, page_count_of_words, PDF2ImageError, PDF};

const REPORT: &str = "Title:          ropes\nProducer:       pdfTeX\nPages:          8\nEncrypted:      no\nPage size:      612 x 792 pts\n";

#[test]
fn reads_pages_and_encryption() {
    assert_eq!(extract_pdf_info(REPORT.as_bytes()).unwrap(), (8, false));
    let enc = "Pages: 12\r\nEncrypted: yes (print:yes copy:no)\nEncrypted: yes";
    assert!(matches!(
        extract_pdf_info(enc.as_bytes()),
        Err(PDF2ImageError::UnableToExtractEncryptionStatus)
    ));
    let enc = "Encrypted:   yes\nPages:\t+12\n";
    assert_eq!(extract_pdf_info(enc.as_bytes()).unwrap(), (12, true));
}

#[test]
fn first_labelled_line_wins() {
    let out = "Pages: 3\nPages: 4\nEncrypted: no\nEncrypted: yes\n";
    assert_eq!(extract_pdf_info(out.as_bytes()).unwrap(), (3, false));
}

#[test]
fn label_must_start_the_line() {
    let out = " Pages: 3\nEncrypted: no\n";
    assert!(matches!(
        extract_pdf_info(out.as_bytes()),
        Err(PDF2ImageError::UnableToExtractPageCount)
    ));
}

#[test]
fn missing_or_bad_page_count() {
    for out in ["Encrypted: no\n", "", "Pages:\nEncrypted: no", "Pages: many\nEncrypted: no",
        "Pages: 4294967296\nEncrypted: no", "Pages: -1\nEncrypted: no"] {
        assert!(matches!(
            extract_pdf_info(out.as_bytes()),
            Err(PDF2ImageError::UnableToExtractPageCount)
        ));
    }
    assert_eq!(extract_pdf_info(b"Pages: 4294967295\nEncrypted: no").unwrap(), (u32::MAX, false));
}

#[test]
fn missing_or_bad_encryption_status() {
    for out in ["Pages: 2\n", "Pages: 2\nEncrypted:\n", "Pages: 2\nEncrypted: Yes\n"] {
        assert!(matches!(
            extract_pdf_info(out.as_bytes()),
            Err(PDF2ImageError::UnableToExtractEncryptionStatus)
        ));
    }
}

#[test]
fn labelled_line_that_is_not_utf8() {
    let out: Vec<u8> = b"Pages: 2\xff\nEncrypted: no\n".to_vec();
    assert!(matches!(extract_pdf_info(&out), Err(PDF2ImageError::Utf8(_))));
    let out: Vec<u8> = b"Junk \xff\nPages: 2\nEncrypted: no\xfe\n".to_vec();
    assert!(matches!(extract_pdf_info(&out), Err(PDF2ImageError::Utf8(_))));
    let out: Vec<u8> = b"Junk \xff\nPages: 2\nEncrypted: no\n".to_vec();
    assert_eq!(extract_pdf_info(&out).unwrap(), (2, false));
}

#[test]
fn pdf_from_bytes_keeps_report() {
    let pdf = PDF::from_bytes(vec![1, 2, 3], REPORT.as_bytes()).unwrap();
    assert_eq!(pdf.page_count(), 8);
    assert!(!pdf.is_encrypted());
    assert_eq!(pdf.data(), &[1u8, 2, 3][..]);
    let pdf = PDF::from_bytes(vec![], b"Pages: 1\nEncrypted: yes\n").unwrap();
    assert_eq!(pdf.page_count(), 1);
    assert!(pdf.is_encrypted());
    assert!(matches!(
        PDF::from_bytes(vec![], b"Encrypted: yes\n"),
        Err(PDF2ImageError::UnableToExtractPageCount)
    ));
}

#[test]
fn page_count_from_words() {
    assert_eq!(page_count_of_words(&vec!["Pages:", "8"]), Some(8));
    assert_eq!(page_count_of_words(&vec!["Pages:", "1", "007"]), Some(7));
    assert_eq!(page_count_of_words(&vec!["Pages:", "+0"]), Some(0));
    assert_eq!(page_count_of_words(&vec!["Pages:", "4294967295"]), Some(u32::MAX));
    assert_eq!(page_count_of_words(&vec!["Pages:", "4294967296"]), None);
    assert_eq!(page_count_of_words(&vec!["Pages:", "99999999999999999999"]), None);
    assert_eq!(page_count_of_words(&vec!["Pages:", "+"]), None);
    assert_eq!(page_count_of_words(&vec!["Pages:", "-0"]), None);
    assert_eq!(page_count_of_words(&vec!["Pages:", "1x"]), None);
    assert_eq!(page_count_of_words(&vec!["8", "Pages:"]), None);
    assert_eq!(page_count_of_words(&vec![]), None);
}

#[test]
fn encryption_from_words() {
    assert_eq!(encryption_of_words(&vec!["Encrypted:", "yes"]), Some(true));
    assert_eq!(encryption_of_words(&vec!["Encrypted:", "no"]), Some(false));
    assert_eq!(encryption_of_words(&vec!["Encrypted:", "yes", "no"]), Some(false));
    assert_eq!(encryption_of_words(&vec!["Encrypted:", "YES"]), None);
    assert_eq!(encryption_of_words(&vec!["Encrypted:"]), None);
    assert_eq!(encryption_of_words(&vec![]), None);
}
