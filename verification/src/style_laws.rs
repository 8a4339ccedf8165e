//! What the style sequences set.

use crate::cursor_laws;
use crate::drawing_laws;
use crate::model;
use crate::model::{Color, ScreenView, Style};
use vstd::prelude::*;

verus! {

/// The style that the codes leave behind.
pub open spec fn styled(screen: ScreenView, params: Seq<Seq<u16>>) -> Style {
    screen.after(cursor_laws::csi(params, 'm')).active().style
}

/// Every parameter holds a number.
pub open spec fn is_complete(params: Seq<Seq<u16>>) -> bool {
    forall|i: int| 0 <= i < params.len() ==> (#[trigger] params[i]).len() > 0
}

/// A style sequence moves and draws nothing.
pub proof fn lemma_styling_draws_nothing(screen: ScreenView, params: Seq<Seq<u16>>)
    ensures
        ({
            let b = screen.active();
            let after = screen.after(cursor_laws::csi(params, 'm')).active();
            &&& cursor_laws::same_but_for_the_cursor(
                model::BufferView { style: b.style, ..after },
                b,
            )
            &&& after.cursor_col == b.cursor_col
            &&& after.cursor_row == b.cursor_row
            &&& after.pending_wrap == b.pending_wrap
            &&& after.last_printed == b.last_printed
        }),
{
}

/// One code sets what it names and leaves everything else: each attribute has one
/// code that sets it and one that clears it, the colours are counted from the codes
/// 30, 40, 90 and 100 on, and zero, or no code at all, clears everything.
pub proof fn lemma_one_code(screen: ScreenView, code: u16)
    ensures
        ({
            let before = screen.active().style;
            let after = styled(screen, seq![seq![code]]);
            let kept = |clear: int| code != 0 && code != clear;
            &&& after.bold == (code == 1 || before.bold && kept(22))
            &&& after.italic == (code == 3 || before.italic && kept(23))
            &&& after.underline == (code == 4 || before.underline && kept(24))
            &&& after.inverse == (code == 7 || before.inverse && kept(27))
            &&& 30 <= code <= 37 ==> after.foreground == Color::Indexed((code - 30) as u8)
            &&& 90 <= code <= 97 ==> after.foreground == Color::Indexed((code - 82) as u8)
            &&& code == 0 || code == 39 ==> after.foreground == Color::Default
            &&& !(30 <= code <= 37 || 90 <= code <= 97 || code == 0 || code == 39)
                ==> after.foreground == before.foreground
            &&& 40 <= code <= 47 ==> after.background == Color::Indexed((code - 40) as u8)
            &&& 100 <= code <= 107 ==> after.background == Color::Indexed((code - 92) as u8)
            &&& code == 0 || code == 49 ==> after.background == Color::Default
            &&& !(40 <= code <= 47 || 100 <= code <= 107 || code == 0 || code == 49)
                ==> after.background == before.background
        }),
        drawing_laws::is_unset(styled(screen, seq![])),
{
    lemma_numbered(seq![seq![code]]);
    lemma_numbered(seq![]);
    reveal_with_fuel(model::restyled, 3);
    reveal_with_fuel(model::numbered, 2);
}

/// The extended colours: an index, or three components. A number above 255 names no
/// colour, and then nothing changes.
pub proof fn lemma_extended_colors(screen: ScreenView, ground: u16, a: u16, b: u16, c: u16)
    requires
        ground == 38 || ground == 48,
    ensures
        ({
            let before = screen.active().style;
            let indexed = styled(screen, seq![seq![ground], seq![5u16], seq![a]]);
            let mixed = styled(
                screen,
                seq![seq![ground], seq![2u16], seq![a], seq![b], seq![c]],
            );
            let set = |after: Style, color: Color|
                if ground == 38 {
                    after == Style { foreground: color, ..before }
                } else {
                    after == Style { background: color, ..before }
                };
            &&& a <= 255 ==> set(indexed, Color::Indexed(a as u8))
            &&& a > 255 ==> indexed == before
            &&& a <= 255 && b <= 255 && c <= 255 ==> set(
                mixed,
                Color::Rgb(a as u8, b as u8, c as u8),
            )
            &&& a > 255 || b > 255 || c > 255 ==> mixed == before
        }),
{
    lemma_numbered(seq![seq![ground], seq![5u16], seq![a]]);
    lemma_numbered(seq![seq![ground], seq![2u16], seq![a], seq![b], seq![c]]);
    reveal_with_fuel(model::restyled, 3);
}

/// Codes in one sequence do what they do in sequences of their own, one after the
/// other, where the first part is a code that stands alone or a whole extended
/// colour.
pub proof fn lemma_codes_come_one_after_the_other(
    screen: ScreenView,
    first: Seq<Seq<u16>>,
    rest: Seq<Seq<u16>>,
)
    requires
        is_complete(first),
        is_complete(rest),
        rest.len() > 0,
        ({
            ||| first.len() == 1 && first[0][0] != 38 && first[0][0] != 48
            ||| first.len() == 3 && first[0].len() == 1 && (first[0][0] == 38 || first[0][0] == 48)
                && first[1][0] == 5
            ||| first.len() == 5 && first[0].len() == 1 && (first[0][0] == 38 || first[0][0] == 48)
                && first[1][0] == 2
        }),
    ensures
        styled(screen, first + rest) == styled(
            screen.after(cursor_laws::csi(first, 'm')),
            rest,
        ),
{
    let all = first + rest;
    let n = first.len() as int;
    lemma_numbered(first);
    lemma_numbered(rest);
    assert(is_complete(all));
    lemma_numbered(all);
    assert(all.skip(n) =~= rest);
    reveal_with_fuel(model::restyled, 2);
    let style = screen.active().style;
    let one = model::restyled(style, first, 0);
    lemma_restyled_skips(one, all, n, 0);
    assert(all[0] == first[0]);
    if n > 1 {
        assert(all[1] == first[1] && all[2] == first[2]);
    }
    if n > 3 {
        assert(all[3] == first[3] && all[4] == first[4]);
    }
    assert(model::restyled(style, all, 0) == model::restyled(one, all, n));
}

/// Only the codes from a position on matter for what follows there.
proof fn lemma_restyled_skips(style: Style, codes: Seq<Seq<u16>>, n: int, i: int)
    requires
        0 <= n <= codes.len(),
        0 <= i,
    ensures
        model::restyled(style, codes, n + i) == model::restyled(style, codes.skip(n), i),
    decreases codes.len() - n - i,
{
    let rest = codes.skip(n);
    if i < rest.len() {
        assert(rest[i] == codes[n + i]);
        lemma_restyled_skips(model::restyled_by(style, codes[n + i][0]), codes, n, i + 1);
        lemma_restyled_skips(style, codes, n, i + 1);
        if i + 2 < rest.len() {
            assert(rest[i + 1] == codes[n + i + 1] && rest[i + 2] == codes[n + i + 2]);
            let color = Color::Indexed(codes[n + i + 2][0] as u8);
            lemma_restyled_skips(
                model::recolored(style, codes[n + i][0], color),
                codes,
                n,
                i + 3,
            );
            lemma_restyled_skips(style, codes, n, i + 3);
        }
        if i + 4 < rest.len() {
            assert(rest[i + 3] == codes[n + i + 3] && rest[i + 4] == codes[n + i + 4]);
            let color = Color::Rgb(
                codes[n + i + 2][0] as u8,
                codes[n + i + 3][0] as u8,
                codes[n + i + 4][0] as u8,
            );
            lemma_restyled_skips(
                model::recolored(style, codes[n + i][0], color),
                codes,
                n,
                i + 5,
            );
            lemma_restyled_skips(style, codes, n, i + 5);
        }
    }
}

/// Where every parameter holds a number, none is left out.
proof fn lemma_numbered(params: Seq<Seq<u16>>)
    requires
        is_complete(params),
    ensures
        model::numbered(params, params.len() as int) == params,
{
    lemma_numbered_until(params, params.len() as int);
    assert(params.take(params.len() as int) =~= params);
}

proof fn lemma_numbered_until(params: Seq<Seq<u16>>, count: int)
    requires
        is_complete(params),
        0 <= count <= params.len(),
    ensures
        model::numbered(params, count) == params.take(count),
    decreases count,
{
    if count > 0 {
        lemma_numbered_until(params, count - 1);
        assert(params[count - 1].len() > 0);
        assert(params.take(count) =~= params.take(count - 1).push(params[count - 1]));
    } else {
        assert(params.take(0) =~= seq![]);
    }
}

/// A parameter without a number is as if it were not there.
pub proof fn lemma_empty_parameters_are_left_out(
    screen: ScreenView,
    front: Seq<Seq<u16>>,
    back: Seq<Seq<u16>>,
)
    ensures
        styled(screen, front + seq![Seq::<u16>::empty()] + back) == styled(screen, front + back),
{
    let gap = front + seq![Seq::<u16>::empty()] + back;
    let none = front + back;
    let n = front.len() as int;
    lemma_same_numbered(gap, none, n);
    assert(gap[n].len() == 0);
    lemma_numbered_past_gap(front, back, back.len() as int);
}

proof fn lemma_same_numbered(a: Seq<Seq<u16>>, b: Seq<Seq<u16>>, count: int)
    requires
        count <= a.len(),
        count <= b.len(),
        forall|i: int| 0 <= i < count ==> a[i] == b[i],
    ensures
        model::numbered(a, count) == model::numbered(b, count),
    decreases count,
{
    if count > 0 {
        lemma_same_numbered(a, b, count - 1);
    }
}

proof fn lemma_numbered_past_gap(front: Seq<Seq<u16>>, back: Seq<Seq<u16>>, count: int)
    requires
        0 <= count <= back.len(),
    ensures
        model::numbered(
            front + seq![Seq::<u16>::empty()] + back,
            front.len() + 1 + count,
        ) == model::numbered(front + back, front.len() + count),
    decreases count,
{
    let gap = front + seq![Seq::<u16>::empty()] + back;
    let none = front + back;
    let n = front.len() as int;
    if count > 0 {
        lemma_numbered_past_gap(front, back, count - 1);
        assert(gap[n + count] == back[count - 1]);
        assert(none[n + count - 1] == back[count - 1]);
    } else {
        assert(gap[n].len() == 0);
        lemma_same_numbered(gap, none, n);
    }
}

/// A colour whose parameter holds further numbers is dropped alone: the codes
/// behind it count. One that is cut short, or of an unknown kind, is dropped with
/// the codes behind it.
pub proof fn lemma_dropped_colors(
    screen: ScreenView,
    color: Seq<u16>,
    rest: Seq<Seq<u16>>,
)
    requires
        color.len() > 0,
        color[0] == 38 || color[0] == 48,
        is_complete(rest),
        rest.len() > 0,
    ensures
        color.len() > 1 ==> styled(screen, seq![color] + rest) == styled(screen, rest),
        color.len() == 1 && !(rest.len() >= 2 && rest[0][0] == 5) && !(rest.len() >= 4
            && rest[0][0] == 2) ==> styled(screen, seq![color] + rest) == screen.active().style,
{
    let all = seq![color] + rest;
    assert(is_complete(all)) by {
        assert forall|i: int| 0 <= i < all.len() implies (#[trigger] all[i]).len() > 0 by {
            if i > 0 {
                assert(all[i] == rest[i - 1]);
            }
        }
    }
    lemma_numbered(all);
    lemma_numbered(rest);
    assert(all.skip(1) =~= rest);
    assert(all[0] == color && all[1] == rest[0]);
    lemma_restyled_skips(screen.active().style, all, 1, 0);
}

} // verus!
