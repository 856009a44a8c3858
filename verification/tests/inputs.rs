use cube_convert::error::{ConvertError, InputError};
use cube_convert::inputs::{is_eligible, name_le, select_inputs, SourceKind};

fn names(list: &[&str]) -> Vec<Vec<u8>> {
    list.iter().map(|s| s.as_bytes().to_vec()).collect()
}

#[test]
fn order_is_lexicographic_on_bytes() {
    assert!(name_le(b"", b""));
    assert!(name_le(b"", b"a"));
    assert!(!name_le(b"a", b""));
    assert!(name_le(b"a", b"a"));
    assert!(name_le(b"a", b"ab"));
    assert!(!name_le(b"ab", b"a"));
    assert!(name_le(b"ab", b"b"));
    assert!(name_le(b"B", b"a"));
    assert!(name_le(b"page10", b"page2"));
    assert!(!name_le(b"page2", b"page10"));
}

#[test]
fn documents_are_selected_and_sorted() {
    let r = select_inputs(
        names(&["b.pdf", "notes.txt", "a.pdf", "c.PDF", "a10.pdf", "a2.pdf", ".pdf"]),
        SourceKind::Document,
    );
    assert_eq!(r, Ok(names(&["a.pdf", "a10.pdf", "a2.pdf", "b.pdf"])));
}

#[test]
fn images_are_selected_and_sorted() {
    let r = select_inputs(
        names(&["z.JPG", "m.png", "a.jpeg", "doc.pdf", "m.png"]),
        SourceKind::Image,
    );
    assert_eq!(r, Ok(names(&["a.jpeg", "m.png", "m.png", "z.JPG"])));
}

#[test]
fn folder_without_sources_is_rejected() {
    assert_eq!(
        select_inputs(names(&["a.txt", "b.png"]), SourceKind::Document),
        Err(ConvertError::Input(InputError::NoFiles))
    );
    assert_eq!(
        select_inputs(Vec::new(), SourceKind::Image),
        Err(ConvertError::Input(InputError::NoFiles))
    );
}

#[test]
fn eligibility_goes_by_kind() {
    assert!(is_eligible(b"a.pdf", SourceKind::Document));
    assert!(!is_eligible(b"a.pdf", SourceKind::Image));
    assert!(is_eligible(b"a.png", SourceKind::Image));
    assert!(!is_eligible(b"a.png", SourceKind::Document));
}
