use raingame::enums::WordColor;
use raingame::placement::{count_free, nth_free, Span};
use raingame::text::{char_is_space, char_len, trimmed_equals};
use raingame::word::Word;

#[test]
fn word_holds_what_it_was_given() {
    let mut w = Word::new(7, 1500, "horse".to_string(), WordColor::Red);
    assert_eq!(w.get_x(), 7);
    assert_eq!(w.get_y(), 1500);
    assert_eq!(w.get_text(), "horse");
    assert_eq!(w.get_color(), WordColor::Red);
    assert_eq!(w.len(), 5);
    assert_eq!(w.row(), 1);
    w.set_y(2999);
    assert_eq!(w.get_y(), 2999);
    assert_eq!(w.row(), 2);
    assert_eq!(w.get_x(), 7);
    assert_eq!(w.get_text(), "horse");
}

#[test]
fn row_rounds_towards_the_top_line() {
    let at = |y: i64| Word::new(0, y, String::new(), WordColor::White).row();
    assert_eq!(at(0), 0);
    assert_eq!(at(999), 0);
    assert_eq!(at(1000), 1);
    assert_eq!(at(-1), 0);
    assert_eq!(at(-999), 0);
    assert_eq!(at(-1000), -1);
    assert_eq!(at(-1001), -1);
    assert_eq!(at(i64::MIN + 1), -9223372036854775);
}

#[test]
fn length_counts_characters() {
    assert_eq!(char_len(&String::new()), 0);
    assert_eq!(char_len(&"cat".to_string()), 3);
    assert_eq!(char_len(&"é한a".to_string()), 3);
    assert_eq!(Word::new(0, 0, "é한a".to_string(), WordColor::White).len(), 3);
}

#[test]
fn colour_numbers() {
    assert_eq!(WordColor::White.index(), 0);
    assert_eq!(WordColor::Black.index(), 1);
    assert_eq!(WordColor::Yellow.index(), 2);
    assert_eq!(WordColor::Red.index(), 3);
    assert_eq!(WordColor::Green.index(), 4);
}

#[test]
fn white_space_is_what_the_standard_library_calls_white_space() {
    for u in 0..=0x10ffffu32 {
        if let Some(c) = char::from_u32(u) {
            assert_eq!(char_is_space(c), c.is_whitespace(), "U+{:04X}", u);
        }
    }
}

#[test]
fn trimmed_comparison_agrees_with_trim() {
    let inputs = [
        "", " ", "cat", " cat", "cat ", "  cat  ", "\tcat\n", "c at", " c at ", "\u{3000}cat\u{a0}",
        "cat\u{200b}", "ca", "cats", " \n ", "한글 ", " é",
    ];
    let words = ["", "cat", "c at", "ca", "cats", "cat\u{200b}", "한글", "é", " "];
    for i in inputs {
        for w in words {
            assert_eq!(
                trimmed_equals(&i.to_string(), &w.to_string()),
                i.trim() == w,
                "{:?} against {:?}",
                i,
                w
            );
        }
    }
}

fn is_free(width: i64, len: i64, prev: Option<Span>, x: i64) -> bool {
    if !(0 <= x && x < width - len) {
        return false;
    }
    match prev {
        None => true,
        Some(p) => {
            let lo = p.column as i64 - 1;
            let hi = p.column as i64 + p.len as i64 + 1;
            !(lo < x + len && x < hi)
        }
    }
}

#[test]
fn free_columns_are_counted_and_found_in_order() {
    for width in 0..14i32 {
        let mut prevs = vec![None];
        for column in 0..width {
            for len in 0..(width - column) {
                prevs.push(Some(Span { column, len: len as u32 }));
            }
        }
        for prev in prevs {
            for len in 0..16usize {
                let expected: Vec<i64> = (-2..20)
                    .filter(|x| is_free(width as i64, len as i64, prev, *x))
                    .collect();
                let n = count_free(width, len, prev);
                assert_eq!(n, expected.len(), "{} {} {:?}", width, len, prev);
                for k in 0..n {
                    assert_eq!(nth_free(width, len, prev, k) as i64, expected[k]);
                }
            }
        }
    }
}

#[test]
fn free_columns_on_an_empty_field() {
    assert_eq!(count_free(80, 3, None), 77);
    assert_eq!(nth_free(80, 3, None, 0), 0);
    assert_eq!(nth_free(80, 3, None, 76), 76);
    assert_eq!(count_free(80, 80, None), 0);
    assert_eq!(count_free(80, 81, None), 0);
    assert_eq!(count_free(0, 0, None), 0);
    assert_eq!(count_free(-5, 0, None), 0);
    assert_eq!(count_free(i32::MAX, usize::MAX, None), 0);
}

#[test]
fn free_columns_beside_a_word() {
    // The word before covers 10..15; a word of 3 may start at 0..=6 or at
    // 16..=76.
    let prev = Some(Span { column: 10, len: 5 });
    assert_eq!(count_free(80, 3, prev), 7 + 61);
    assert_eq!(nth_free(80, 3, prev, 6), 6);
    assert_eq!(nth_free(80, 3, prev, 7), 16);
    assert_eq!(nth_free(80, 3, prev, 67), 76);
}

#[test]
fn text_can_be_changed_in_place() {
    let mut w = Word::new(4, 250, "horse".to_string(), WordColor::Green);
    w.get_text_mut().remove(0);
    assert_eq!(w.get_text(), "orse");
    assert_eq!(w.len(), 4);
    assert_eq!(w.get_x(), 4);
    assert_eq!(w.get_y(), 250);
    assert_eq!(w.get_color(), WordColor::Green);
}
