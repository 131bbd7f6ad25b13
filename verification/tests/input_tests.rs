use regex_input::ByteInput;
use regex_input::CharInput;
use regex_input::Input;
use regex_input::LiteralSearcher;

#[test]
fn at_pos_matches_offset_in_both_modes() {
    let buf = "h\u{e9}llo".as_bytes();
    let ci = CharInput::new(buf);
    let bi = ByteInput::new(buf);
    for i in 0..=buf.len() {
        assert_eq!(ci.at(i).pos(), i);
        assert_eq!(bi.at(i).pos(), i);
    }
}

#[test]
fn boundaries_in_both_modes() {
    let buf = b"abc";
    let ci = CharInput::new(buf);
    let bi = ByteInput::new(buf);
    assert!(ci.at(0).is_start());
    assert!(bi.at(0).is_start());
    assert!(ci.at(buf.len()).is_end());
    assert!(bi.at(buf.len()).is_end());
    assert!(!ci.at(1).is_end());
    assert!(!bi.at(1).is_end());
    assert!(!ci.at(1).is_start());
}

#[test]
fn char_mode_decodes_multibyte() {
    // "héllo": h=1 byte, é=2 bytes, l, l, o
    let buf = "h\u{e9}llo".as_bytes();
    let ci = CharInput::new(buf);
    let at1 = ci.at(1);
    assert_eq!(at1.char().as_char(), Some('\u{e9}'));
    assert_eq!(at1.len(), 2);
    assert_eq!(at1.next_pos(), 3);
    assert_eq!(ci.previous_char(ci.at(3)).as_char(), Some('\u{e9}'));
    assert_eq!(ci.next_char(ci.at(0)).as_char(), Some('h'));
    assert_eq!(ci.at(3).char().as_char(), Some('l'));
    assert!(ci.at(buf.len()).char().is_none());
}

#[test]
fn char_mode_walk_visits_every_scalar() {
    let text = "h\u{e9}llo \u{4e2d}\u{1f600}!";
    let buf = text.as_bytes();
    let ci = CharInput::new(buf);
    let mut seen = Vec::new();
    let mut at = ci.at(0);
    while !at.is_end() {
        seen.push(at.char().as_char().unwrap());
        at = ci.at(at.next_pos());
    }
    let want: Vec<char> = text.chars().collect();
    assert_eq!(seen, want);
}

#[test]
fn byte_mode_invalid_lead_byte() {
    // invalid lead byte followed by 'a'
    let buf = &[0xff, 0x61];
    let bi = ByteInput::new(buf);
    let at0 = bi.at(0);
    assert_eq!(at0.byte(), Some(0xff));
    assert!(at0.char().is_none());
    for i in 0..=buf.len() {
        assert_eq!(bi.at(i).len(), 1);
    }
    assert_eq!(bi.at(1).byte(), Some(0x61));
    assert_eq!(bi.at(2).byte(), None);
    assert!(bi.at(2).is_end());
}

#[test]
fn byte_mode_still_decodes_characters() {
    let buf = "a\u{e9}b".as_bytes();
    let bi = ByteInput::new(buf);
    // stepping is per byte, but character lookaround still decodes UTF-8
    assert_eq!(bi.next_char(bi.at(1)).as_char(), Some('\u{e9}'));
    assert_eq!(bi.previous_char(bi.at(3)).as_char(), Some('\u{e9}'));
    assert!(bi.at(1).char().is_none());
    // inside an encoding nothing decodes
    assert!(bi.next_char(bi.at(2)).is_none());
    assert!(bi.previous_char(bi.at(2)).is_none());
}

#[test]
fn char_mode_malformed_bytes_become_absent() {
    // overlong encoding of '/', a lone continuation byte, a surrogate
    let cases: &[&[u8]] = &[&[0xc0, 0xaf], &[0x80], &[0xed, 0xa0, 0x80], &[0xf8, 0x80]];
    for buf in cases {
        let ci = CharInput::new(buf);
        let at0 = ci.at(0);
        assert!(at0.char().is_none(), "{buf:?} must not decode");
        assert_eq!(at0.len(), 0);
        assert!(ci.next_char(at0).is_none());
    }
}

#[test]
fn previous_char_bounded_backward_scan() {
    // four continuation bytes: no sequence start within reach
    let buf = &[0x61, 0x80, 0x80, 0x80, 0x80];
    let bi = ByteInput::new(buf);
    assert!(bi.previous_char(bi.at(5)).is_none());
    // a truncated sequence before the end decodes nothing
    let buf2 = &[0xe2, 0x82];
    let bi2 = ByteInput::new(buf2);
    assert!(bi2.previous_char(bi2.at(2)).is_none());
    // a 4-byte scalar is found by scanning back 4 bytes
    let buf3 = "\u{1f600}".as_bytes();
    let ci3 = CharInput::new(buf3);
    assert_eq!(ci3.previous_char(ci3.at(4)).as_char(), Some('\u{1f600}'));
}

#[test]
fn word_boundary_scenario() {
    let buf = b"a_b boundary";
    let ci = CharInput::new(buf);
    assert_eq!(ci.previous_char(ci.at(1)).as_char(), Some('a'));
    assert_eq!(ci.next_char(ci.at(1)).as_char(), Some('_'));
    // both sides of offset 1 are word characters: no boundary
    assert!(ci.previous_char(ci.at(1)).is_word_char());
    assert!(ci.next_char(ci.at(1)).is_word_char());
    // 'b' then space: a boundary between offsets 2 and 3
    assert!(ci.previous_char(ci.at(3)).is_word_char());
    assert!(!ci.next_char(ci.at(3)).is_word_char());
}

#[test]
fn as_bytes_and_len() {
    let buf = b"xyz";
    let ci = CharInput::new(buf);
    let bi = ByteInput::new(buf);
    assert_eq!(ci.len(), 3);
    assert_eq!(bi.len(), 3);
    assert_eq!(ci.as_bytes(), buf);
    assert_eq!(bi.as_bytes(), buf);
}

#[test]
fn find_earliest_literal() {
    let lits = LiteralSearcher::new(vec![b"bc".to_vec(), b"zz".to_vec()]);
    assert_eq!(lits.num_literals(), 2);
    assert_eq!(lits.find(b"aabcd"), Some((2, 4)));
    assert_eq!(lits.find(b"zzbc"), Some((0, 2)));
    assert_eq!(lits.find(b"aaa"), None);
    assert_eq!(lits.find(b""), None);
}

#[test]
fn find_with_empty_literal_matches_at_start() {
    let lits = LiteralSearcher::new(vec![b"".to_vec()]);
    assert_eq!(lits.find(b"abc"), Some((0, 0)));
    assert_eq!(lits.find(b""), Some((0, 0)));
}

#[test]
fn find_with_no_literals() {
    let lits = LiteralSearcher::empty();
    assert_eq!(lits.find(b"anything"), None);
}

#[test]
fn prefix_at_resolves_to_earliest_occurrence() {
    let buf = b"xxneedlexx";
    let lits = LiteralSearcher::new(vec![b"needle".to_vec()]);
    for mode in 0..2 {
        let skip = |start: usize| -> Option<usize> {
            if mode == 0 {
                let ci = CharInput::new(buf);
                ci.prefix_at(&lits, ci.at(start)).map(|d| d.pos())
            } else {
                let bi = ByteInput::new(buf);
                bi.prefix_at(&lits, bi.at(start)).map(|d| d.pos())
            }
        };
        // from any offset at or before the occurrence, it resolves there
        assert_eq!(skip(0), Some(2));
        assert_eq!(skip(1), Some(2));
        assert_eq!(skip(2), Some(2));
        // past the occurrence nothing is left
        assert_eq!(skip(3), None);
        assert_eq!(skip(buf.len()), None);
    }
}

#[test]
fn prefix_at_none_when_literal_absent() {
    let buf = b"haystack";
    let lits = LiteralSearcher::new(vec![b"needle".to_vec()]);
    let ci = CharInput::new(buf);
    assert!(ci.prefix_at(&lits, ci.at(0)).is_none());
}

#[test]
fn prefix_at_descriptor_carries_the_mode() {
    let buf = "x\u{e9}y".as_bytes();
    let lits = LiteralSearcher::new(vec![vec![0xc3]]);
    let ci = CharInput::new(buf);
    let d = ci.prefix_at(&lits, ci.at(0)).unwrap();
    assert_eq!(d.pos(), 1);
    assert_eq!(d.char().as_char(), Some('\u{e9}'));
    assert_eq!(d.len(), 2);
    let bi = ByteInput::new(buf);
    let d = bi.prefix_at(&lits, bi.at(0)).unwrap();
    assert_eq!(d.pos(), 1);
    assert!(d.char().is_none());
    assert_eq!(d.byte(), Some(0xc3));
    assert_eq!(d.len(), 1);
}

fn probe<I: Input>(input: I, lits: &LiteralSearcher) -> Vec<(usize, Option<char>, Option<u8>, usize, bool, bool, Option<char>, Option<char>, Option<usize>)> {
    let mut out = Vec::new();
    for i in 0..=input.len() {
        let at = input.at(i);
        out.push((
            at.pos(),
            at.char().as_char(),
            at.byte(),
            at.len(),
            at.is_start(),
            at.is_end(),
            input.next_char(at).as_char(),
            input.previous_char(at).as_char(),
            input.prefix_at(lits, at).map(|d| d.pos()),
        ));
    }
    out
}

#[test]
fn borrowed_reference_delegates_transparently() {
    let buf = "h\u{e9}llo h\u{e9}".as_bytes();
    let lits = LiteralSearcher::new(vec![b"llo".to_vec(), vec![0xa9]]);
    let ci = CharInput::new(buf);
    assert_eq!(probe(ci, &lits), probe(&ci, &lits));
    assert_eq!(probe(ci, &lits), probe(&&ci, &lits));
    let bi = ByteInput::new(buf);
    assert_eq!(probe(bi, &lits), probe(&bi, &lits));
    assert_eq!(probe(bi, &lits), probe(&&bi, &lits));
}
