use prelearning::lexorank::radix::Base36;
use prelearning::lexorank::{LexoRank, LexoRankError, Marker, Rank};

#[test]
fn compare_to_radix() {
    for i in 0..10000 {
        let value = Base36::new(i).to_string();

        assert!(u64::from_str_radix(&value, 36).unwrap() == i);
    }
}

#[test]
fn base36_digits() {
    assert_eq!(Base36::new(35).to_string(), "z");
    assert_eq!(Base36::new(36).to_string(), "10");
    assert_eq!(Base36::new(0).to_string(), "0");
    assert_eq!(Base36::new(u64::MAX).to_string(), "3w5e11264sgsf");
}

#[test]
fn rank_text_roundtrip() {
    let rank = Rank::new(1, 12345);
    let text = rank.to_string();
    let back = Rank::from_str(&text);
    assert_eq!(back.bucket(), 1);
    assert_eq!(back.position(), 12345);
}

#[test]
fn marker_rejects_bad_widths() {
    assert!(matches!(Marker::new(0, 1), Err(LexoRankError::InvalidNumber { .. })));
    assert!(matches!(Marker::new(13, 1), Err(LexoRankError::InvalidNumber { .. })));
    assert!(Marker::new(12, 1).is_ok());
}

#[test]
fn marker_middle_is_between() {
    let m = Marker::middlepoint(10, 20).unwrap();
    assert!(10 < m && m < 20);
    assert_eq!(m, 15);
    assert!(Marker::middlepoint(10, 11).is_none());
}

#[test]
fn lexorank_first_rank_is_the_middle() {
    let lexo = LexoRank::default();
    let first = lexo.next(None);
    let before = lexo.prev(None);
    assert_eq!(first.position(), before.position());
}

#[test]
fn lexorank_next_is_after() {
    let lexo = LexoRank::new(4, 16).unwrap();
    let a = lexo.next(None);
    let text = a.to_string();
    let b = lexo.next(Some(&text));
    assert!(b.position() > a.position());
    let c = lexo.prev(Some(&text));
    assert!(c.position() < a.position());
}

#[test]
fn rank_text_parsed_or_refused() {
    let r = Rank::parse("0|abc").unwrap();
    assert_eq!(r.bucket(), 0);
    assert_eq!(r.position(), 13368);
    assert!(Rank::parse("1|2|3").is_none());
    assert!(Rank::parse("a|1").is_none());
    assert!(Rank::parse("300|1").is_none());
    assert!(Rank::parse("12").is_none());
}

#[test]
fn checked_steps_refuse_what_has_no_room() {
    let lexo = LexoRank::new(4, 16).unwrap();
    assert_eq!(lexo.try_prev(None).unwrap().position(), 839807);
    assert_eq!(lexo.try_next(None).unwrap().position(), 839807);
    assert!(lexo.try_prev(Some("0|0")).is_none());
    assert_eq!(lexo.try_prev(Some("0|zz")).unwrap().position(), 647);
    assert!(lexo.try_prev(Some("0|1")).is_none());
    assert!(lexo.try_prev(Some("garbage")).is_none());
    assert!(lexo.try_next(Some("0|zzzz")).is_none());
    assert_eq!(lexo.try_next(Some("0|zzzx")).unwrap().position(), 1679614);
    let first = lexo.next(None).to_string();
    assert_eq!(lexo.try_next(Some(&first)).unwrap().position(), 944782);
    assert_eq!(lexo.try_prev(Some(&first)).unwrap().position(), 734832);
}

#[test]
fn marker_prev_falls_back_to_the_midpoint_above_the_bottom() {
    let marker = Marker::new(4, 16).unwrap();
    assert_eq!(marker.prev(200000), Some(200000 - 104975));
    assert_eq!(marker.prev(104976), Some(1));
    assert_eq!(marker.prev(104975), Some(52487));
    assert_eq!(marker.prev(10), Some(5));
    assert_eq!(marker.prev(1), None);
    assert_eq!(marker.prev(0), None);
}

#[test]
fn base36_text_shape() {
    for n in [1u64, 35, 36, 1295, 1296, 123456789, u64::MAX] {
        let s = Base36::new(n).to_string();
        assert!(!s.is_empty() && s.len() <= 13);
        assert!(!s.starts_with('0'));
        assert!(s.chars().all(|c| c.is_ascii_digit() || c.is_ascii_lowercase()));
        assert_eq!(u64::from_str_radix(&s, 36), Ok(n));
    }
}
