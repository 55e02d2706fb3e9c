use pdf2image::Pages;

#[test]
fn range_is_clipped_to_document() {
    assert_eq!(Pages::Range(0..=3).resolve(10), vec![1, 2, 3]);
    assert_eq!(Pages::Range(8..=20).resolve(10), vec![8, 9, 10]);
    assert_eq!(Pages::Range(2..=5).resolve(10), vec![2, 3, 4, 5]);
    assert_eq!(Pages::Range(4..=4).resolve(10), vec![4]);
}

#[test]
fn range_outside_document_is_empty() {
    assert_eq!(Pages::Range(11..=20).resolve(10), Vec::<u32>::new());
    assert_eq!(Pages::Range(0..=0).resolve(10), Vec::<u32>::new());
    assert_eq!(Pages::Range(1..=5).resolve(0), Vec::<u32>::new());
    assert_eq!(Pages::Range(5..=1).resolve(10), Vec::<u32>::new());
}

#[test]
fn exhausted_range_is_empty() {
    let mut r = 1..=3u32;
    for _ in r.by_ref() {}
    assert_eq!(Pages::Range(r).resolve(10), Vec::<u32>::new());
}

#[test]
fn range_up_to_largest_page() {
    let pages = Pages::Range(u32::MAX - 1..=u32::MAX).resolve(u32::MAX);
    assert_eq!(pages, vec![u32::MAX - 1, u32::MAX]);
}

#[test]
fn all_pages_start_at_zero() {
    assert_eq!(Pages::All.resolve(3), vec![0, 1, 2, 3]);
    assert_eq!(Pages::All.resolve(0), vec![0]);
}

#[test]
fn single_page_is_kept_as_given() {
    assert_eq!(Pages::Single(2).resolve(3), vec![2]);
    assert_eq!(Pages::Single(99).resolve(3), vec![99]);
    assert_eq!(Pages::Single(u32::MAX).resolve(3), vec![u32::MAX]);
}

#[test]
fn cloned_selection_resolves_alike() {
    let p = Pages::Range(2..=4);
    let q = p.clone();
    assert_eq!(p.resolve(3), q.resolve(3));
    assert_eq!(q.resolve(3), vec![2, 3]);
}
