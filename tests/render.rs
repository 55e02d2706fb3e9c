use pdf2image::{
    collect_rendered, decode_page, get_executable_path, tool_name, PDF2ImageError,
    Pages, Password, RenderOptions, DPI, PDF,
};

fn pdf(encrypted: bool, pages: u32) -> PDF {
    let report = format!("Pages: {}\nEncrypted: {}\n", pages, if encrypted { "yes" } else { "no" });
    PDF::from_bytes(vec![37, 80, 68, 70], report.as_bytes()).unwrap()
}

#[test]
fn encrypted_without_password_fails_before_any_job() {
    let doc = pdf(true, 4);
    let r = doc.render_args(&Pages::All, &RenderOptions::default());
    assert!(matches!(r, Err(PDF2ImageError::NoPasswordForEncryptedPDF)));
}

#[test]
fn encrypted_with_password_gives_jobs() {
    let doc = pdf(true, 2);
    let o = RenderOptions {
        password: Some(Password::Owner("pw".to_string())),
        ..RenderOptions::default()
    };
    let jobs = doc.render_args(&Pages::Range(1..=5), &o).unwrap();
    assert_eq!(
        jobs,
        vec![
            vec!["-jpeg", "-singlefile", "-f", "1", "-l", "1", "-r", "150", "-opw", "pw"],
            vec!["-jpeg", "-singlefile", "-f", "2", "-l", "2", "-r", "150", "-opw", "pw"],
        ]
    );
}

#[test]
fn jobs_follow_resolved_pages() {
    let doc = pdf(false, 3);
    let o = RenderOptions {
        resolution: DPI::Uniform(300),
        greyscale: true,
        pdftocairo: true,
        ..RenderOptions::default()
    };
    let jobs = doc.render_args(&Pages::All, &o).unwrap();
    assert_eq!(jobs.len(), 4);
    for (i, job) in jobs.iter().enumerate() {
        let n = i.to_string();
        assert_eq!(
            job,
            &vec!["-", "-", "-jpeg", "-singlefile", "-f", n.as_str(), "-l", n.as_str(), "-r", "300", "-gray"]
        );
    }
    assert!(doc.render_args(&Pages::Range(7..=9), &o).unwrap().is_empty());
}

#[test]
fn job_of_one_page() {
    let doc = pdf(false, 20);
    let jobs = doc.render_args(&Pages::Single(12), &RenderOptions::default()).unwrap();
    assert_eq!(jobs, vec![vec!["-jpeg", "-singlefile", "-f", "12", "-l", "12", "-r", "150"]]);
}

#[test]
fn join_keeps_order() {
    let results: Vec<Result<u32, PDF2ImageError>> = vec![Ok(5), Ok(3), Ok(9), Ok(1)];
    assert_eq!(collect_rendered(results).unwrap(), vec![5, 3, 9, 1]);
    let none: Vec<Result<u32, PDF2ImageError>> = vec![];
    assert_eq!(collect_rendered(none).unwrap(), Vec::<u32>::new());
}

#[test]
fn single_failure_fails_the_batch() {
    let results: Vec<Result<u32, PDF2ImageError>> =
        vec![Ok(1), Err(PDF2ImageError::UnableToExtractPageCount), Ok(3)];
    assert!(matches!(collect_rendered(results), Err(PDF2ImageError::UnableToExtractPageCount)));
}

#[test]
fn first_failure_in_order_wins() {
    let results: Vec<Result<u32, PDF2ImageError>> = vec![
        Ok(1),
        Err(PDF2ImageError::RenderOptionsBuilder("first".to_string())),
        Err(PDF2ImageError::NoPasswordForEncryptedPDF),
    ];
    match collect_rendered(results) {
        Err(PDF2ImageError::RenderOptionsBuilder(m)) => assert_eq!(m, "first"),
        _ => panic!("expected the first error"),
    }
}

#[test]
fn decode_rejects_non_jpeg() {
    assert!(matches!(decode_page(b"not an image"), Err(PDF2ImageError::ImageError(_))));
    assert!(matches!(decode_page(&[]), Err(PDF2ImageError::ImageError(_))));
}

#[test]
fn decode_reads_jpeg() {
    let img = image::DynamicImage::new_rgb8(8, 6);
    let mut buf = std::io::Cursor::new(Vec::new());
    img.write_to(&mut buf, image::ImageFormat::Jpeg).unwrap();
    let decoded = decode_page(buf.get_ref()).unwrap();
    assert_eq!((decoded.width(), decoded.height()), (8, 6));
}

#[test]
fn executable_paths() {
    assert_eq!(get_executable_path("pdfinfo", None, false), "pdfinfo");
    assert_eq!(get_executable_path("pdfinfo", None, true), "pdfinfo.exe");
    assert_eq!(get_executable_path("pdftoppm", Some("/opt/poppler"), false), "/opt/poppler/pdftoppm");
    assert_eq!(
        get_executable_path("pdftocairo", Some("C:\\poppler"), true),
        "C:\\poppler\\pdftocairo.exe"
    );
}

#[test]
fn tool_follows_option() {
    let mut o = RenderOptions::default();
    assert_eq!(tool_name(&o), "pdftoppm");
    o.pdftocairo = true;
    assert_eq!(tool_name(&o), "pdftocairo");
}
