use prelearning::language_pack_jp::transcription::{common_source, EbookSegments};

#[test]
fn segments_carry_their_passage() {
    let book = EbookSegments::new(vec!["一", "二", "三"]);
    let segs = book.segments(vec![vec!['a', 'b'], vec![], vec!['c']]);
    let pairs: Vec<(char, usize)> = segs.iter().map(|s| (s.data, *book.source(s))).collect();
    assert_eq!(pairs, vec![('a', 0), ('b', 0), ('c', 2)]);
}

#[test]
fn ranges_from_one_passage() {
    assert_eq!(common_source(&[3, 3, 3]), Some(3));
    assert_eq!(common_source(&[3, 4]), None);
    assert_eq!(common_source(&[]), None);
}
