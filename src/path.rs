use vstd::prelude::*;

use crate::decimal::{coordinate_text, decimal_digits, digit_char, Coordinate};

verus! {

/// A point of a curve command, each coordinate to the hundredth.
#[derive(Debug)]
pub struct CurvePoint {
    pub x: Coordinate,
    pub y: Coordinate,
}

/// One cubic curve command: two control points and the point it ends at.
#[derive(Debug)]
pub struct Curve {
    pub start_control: CurvePoint,
    pub end_control: CurvePoint,
    pub end: CurvePoint,
}

/// The move-to command that opens a path: the first point's coordinates, as
/// written, unrounded.
#[derive(Debug)]
pub struct MoveTo {
    pub x: String,
    pub y: String,
}

/// `x,y`
pub open spec fn point_text(p: CurvePoint) -> Seq<char> {
    coordinate_text(p.x) + seq![','] + coordinate_text(p.y)
}

/// `C x1,y1 x2,y2 x,y`
pub open spec fn curve_text(c: Curve) -> Seq<char> {
    seq!['C', ' '] + point_text(c.start_control) + seq![' '] + point_text(c.end_control) + seq![' ']
        + point_text(c.end)
}

/// The curve commands in order, each with the space that goes before it.
pub open spec fn curves_text(cs: Seq<Curve>) -> Seq<char>
    decreases cs.len(),
{
    if cs.len() == 0 {
        Seq::empty()
    } else {
        curves_text(cs.drop_last()) + seq![' '] + curve_text(cs.last())
    }
}

/// `M x,y`
pub open spec fn move_to_text(m: MoveTo) -> Seq<char> {
    seq!['M', ' '] + m.x@ + seq![','] + m.y@
}

/// A whole path: nothing where there is no first point, else the move-to
/// command followed by the curve commands, all separated by single spaces.
pub open spec fn path_text(start: Option<MoveTo>, curves: Seq<Curve>) -> Seq<char> {
    match start {
        None => Seq::empty(),
        Some(m) => move_to_text(m) + curves_text(curves),
    }
}

/// Appends `x,y` to `out`.
fn push_point(p: &CurvePoint, out: &mut String)
    ensures
        final(out)@ == old(out)@ + point_text(*p),
{
    out.append(p.x.to_text().as_str());
    out.append(",");
    out.append(p.y.to_text().as_str());
    proof {
        reveal_strlit(",");
        assert(final(out)@ =~= old(out)@ + point_text(*p));
    }
}

/// Appends `C x1,y1 x2,y2 x,y` to `out`.
fn push_curve(c: &Curve, out: &mut String)
    ensures
        final(out)@ == old(out)@ + curve_text(*c),
{
    out.append("C ");
    push_point(&c.start_control, out);
    out.append(" ");
    push_point(&c.end_control, out);
    out.append(" ");
    push_point(&c.end, out);
    proof {
        reveal_strlit("C ");
        reveal_strlit(" ");
        assert(final(out)@ =~= old(out)@ + curve_text(*c));
    }
}

/// Joins the move-to command and the curve commands into one path; with no
/// move-to command the path is empty.
pub fn assemble_path(start: &Option<MoveTo>, curves: &Vec<Curve>) -> (r: String)
    ensures
        r@ == path_text(*start, curves@),
{
    match start {
        None => String::new(),
        Some(m) => {
            let mut d = String::new();
            d.append("M ");
            d.append(m.x.as_str());
            d.append(",");
            d.append(m.y.as_str());
            proof {
                reveal_strlit("M ");
                reveal_strlit(",");
                assert(d@ =~= move_to_text(*m));
            }
            let mut k: usize = 0;
            while k < curves.len()
                invariant
                    k <= curves@.len(),
                    d@ == move_to_text(*m) + curves_text(curves@.subrange(0, k as int)),
                decreases curves@.len() - k,
            {
                let ghost before = d@;
                d.append(" ");
                push_curve(&curves[k], &mut d);
                proof {
                    reveal_strlit(" ");
                    let done = curves@.subrange(0, k as int + 1);
                    assert(done.drop_last() =~= curves@.subrange(0, k as int));
                    assert(d@ =~= move_to_text(*m) + curves_text(done));
                }
                k = k + 1;
            }
            proof {
                assert(curves@.subrange(0, curves@.len() as int) =~= curves@);
            }
            d
        },
    }
}

/// How many times `c` occurs in `s`.
pub open spec fn occurrences(s: Seq<char>, c: char) -> nat
    decreases s.len(),
{
    if s.len() == 0 {
        0
    } else {
        occurrences(s.drop_last(), c) + if s.last() == c { 1nat } else { 0nat }
    }
}

proof fn lemma_occurrences_concat(a: Seq<char>, b: Seq<char>, c: char)
    ensures
        occurrences(a + b, c) == occurrences(a, c) + occurrences(b, c),
    decreases b.len(),
{
    if b.len() > 0 {
        assert((a + b).drop_last() =~= a + b.drop_last());
        lemma_occurrences_concat(a, b.drop_last(), c);
    } else {
        assert(a + b =~= a);
    }
}

proof fn lemma_digits_free_of(n: nat, c: char)
    requires
        c == 'M' || c == 'C',
    ensures
        occurrences(decimal_digits(n), c) == 0,
    decreases n,
{
    let s = decimal_digits(n);
    if n < 10 {
        lemma_digit_not_command(n as int);
        lemma_single(digit_char(n as int), c);
    } else {
        lemma_digits_free_of(n / 10, c);
        lemma_digit_not_command((n % 10) as int);
        assert(s.drop_last() =~= decimal_digits(n / 10));
    }
}

/// The text holds neither command letter, `M` nor `C`.
pub open spec fn free_of_commands(s: Seq<char>) -> bool {
    !s.contains('M') && !s.contains('C')
}

/// A coordinate whose text holds neither command letter: every fixed one, and
/// verbatim text without them.
pub open spec fn coordinate_free_of_commands(c: Coordinate) -> bool {
    match c {
        Coordinate::Fixed(_) => true,
        Coordinate::Verbatim(s) => free_of_commands(s@),
    }
}

/// All six coordinates of the curve are free of command letters.
pub open spec fn curve_free_of_commands(c: Curve) -> bool {
    &&& coordinate_free_of_commands(c.start_control.x)
    &&& coordinate_free_of_commands(c.start_control.y)
    &&& coordinate_free_of_commands(c.end_control.x)
    &&& coordinate_free_of_commands(c.end_control.y)
    &&& coordinate_free_of_commands(c.end.x)
    &&& coordinate_free_of_commands(c.end.y)
}

proof fn lemma_absent(s: Seq<char>, c: char)
    requires
        !s.contains(c),
    ensures
        occurrences(s, c) == 0,
    decreases s.len(),
{
    if s.len() > 0 {
        assert(s.last() == s[s.len() - 1]);
        assert forall|i: int| 0 <= i < s.drop_last().len() implies s.drop_last()[i] != c by {
            assert(s.drop_last()[i] == s[i]);
        }
        lemma_absent(s.drop_last(), c);
    }
}

proof fn lemma_single(x: char, c: char)
    ensures
        occurrences(seq![x], c) == if x == c { 1nat } else { 0nat },
{
    assert(seq![x].drop_last() =~= Seq::<char>::empty());
    assert(occurrences(Seq::<char>::empty(), c) == 0);
    assert(seq![x].last() == x);
}

proof fn lemma_digit_not_command(d: int)
    requires
        0 <= d < 10,
    ensures
        digit_char(d) != 'M',
        digit_char(d) != 'C',
{
    let ds = seq!['0', '1', '2', '3', '4', '5', '6', '7', '8', '9'];
    assert(ds[0] == '0' && ds[1] == '1' && ds[2] == '2' && ds[3] == '3' && ds[4] == '4');
    assert(ds[5] == '5' && ds[6] == '6' && ds[7] == '7' && ds[8] == '8' && ds[9] == '9');
}

proof fn lemma_coordinate_free(co: Coordinate, c: char)
    requires
        c == 'M' || c == 'C',
        coordinate_free_of_commands(co),
    ensures
        occurrences(coordinate_text(co), c) == 0,
{
    match co {
        Coordinate::Fixed(h) => {
            let m = h.magnitude as nat;
            let sign = if h.negative { seq!['-'] } else { Seq::<char>::empty() };
            let tail = seq!['.', digit_char(((m / 10) % 10) as int), digit_char((m % 10) as int)];
            lemma_digits_free_of(m / 100, c);
            lemma_occurrences_concat(sign, decimal_digits(m / 100), c);
            lemma_occurrences_concat(sign + decimal_digits(m / 100), tail, c);
            lemma_single('-', c);
            assert(occurrences(Seq::<char>::empty(), c) == 0);
            assert(occurrences(sign, c) == 0);
            assert(!tail.contains(c)) by {
                if tail.contains(c) {
                    let i = choose|i: int| 0 <= i < tail.len() && tail[i] == c;
                    lemma_digit_not_command(((m / 10) % 10) as int);
                    lemma_digit_not_command((m % 10) as int);
                }
            }
            lemma_absent(tail, c);
        },
        Coordinate::Verbatim(s) => {
            lemma_absent(s@, c);
        },
    }
}

proof fn lemma_point_free(p: CurvePoint, c: char)
    requires
        c == 'M' || c == 'C',
        coordinate_free_of_commands(p.x),
        coordinate_free_of_commands(p.y),
    ensures
        occurrences(point_text(p), c) == 0,
{
    lemma_coordinate_free(p.x, c);
    lemma_coordinate_free(p.y, c);
    lemma_single(',', c);
    lemma_occurrences_concat(coordinate_text(p.x), seq![','], c);
    lemma_occurrences_concat(coordinate_text(p.x) + seq![','], coordinate_text(p.y), c);
}

proof fn lemma_curve_count(cv: Curve, c: char)
    requires
        c == 'M' || c == 'C',
        curve_free_of_commands(cv),
    ensures
        occurrences(seq![' '] + curve_text(cv), c) == if c == 'C' { 1nat } else { 0nat },
{
    let a = point_text(cv.start_control);
    let b = point_text(cv.end_control);
    let e = point_text(cv.end);
    lemma_point_free(cv.start_control, c);
    lemma_point_free(cv.end_control, c);
    lemma_point_free(cv.end, c);
    lemma_single(' ', c);
    lemma_single('C', c);
    let cs = seq!['C', ' '];
    assert(cs =~= seq!['C'] + seq![' ']);
    lemma_occurrences_concat(seq!['C'], seq![' '], c);
    lemma_occurrences_concat(seq![' '], cs, c);
    lemma_occurrences_concat(seq![' '] + cs, a, c);
    lemma_occurrences_concat(seq![' '] + cs + a, seq![' '], c);
    lemma_occurrences_concat(seq![' '] + cs + a + seq![' '], b, c);
    lemma_occurrences_concat(seq![' '] + cs + a + seq![' '] + b, seq![' '], c);
    lemma_occurrences_concat(seq![' '] + cs + a + seq![' '] + b + seq![' '], e, c);
    assert(seq![' '] + curve_text(cv) =~= seq![' '] + cs + a + seq![' '] + b + seq![' '] + e);
}

proof fn lemma_curves_count(cs: Seq<Curve>, c: char)
    requires
        c == 'M' || c == 'C',
        forall|k: int| 0 <= k < cs.len() ==> curve_free_of_commands(#[trigger] cs[k]),
    ensures
        occurrences(curves_text(cs), c) == if c == 'C' { cs.len() } else { 0 },
    decreases cs.len(),
{
    if cs.len() > 0 {
        assert forall|k: int| 0 <= k < cs.drop_last().len() implies curve_free_of_commands(
            #[trigger] cs.drop_last()[k],
        ) by {
            assert(cs.drop_last()[k] == cs[k]);
        }
        lemma_curves_count(cs.drop_last(), c);
        lemma_curve_count(cs.last(), c);
        assert(curves_text(cs) =~= curves_text(cs.drop_last()) + (seq![' '] + curve_text(
            cs.last(),
        )));
        lemma_occurrences_concat(curves_text(cs.drop_last()), seq![' '] + curve_text(cs.last()), c);
    } else {
        assert(occurrences(Seq::<char>::empty(), c) == 0);
    }
}

/// A path that starts at a point holds exactly one move-to command and one
/// curve command for each curve given (one for each point after the first):
/// its text holds one `M` and as many `C` as there are curves, provided the
/// first point's text and any verbatim coordinate hold neither letter.
pub proof fn lemma_command_count(m: MoveTo, curves: Seq<Curve>)
    requires
        free_of_commands(m.x@),
        free_of_commands(m.y@),
        forall|k: int| 0 <= k < curves.len() ==> curve_free_of_commands(#[trigger] curves[k]),
    ensures
        occurrences(path_text(Some(m), curves), 'M') == 1,
        occurrences(path_text(Some(m), curves), 'C') == curves.len(),
{
    let head = move_to_text(m);
    assert(head =~= seq!['M'] + seq![' '] + m.x@ + seq![','] + m.y@);
    let cs = seq![' '] + m.x@ + seq![','] + m.y@;
    assert(head =~= seq!['M'] + cs);
    assert forall|c: char| c == 'M' || c == 'C' implies occurrences(head, c) == if c == 'M' {
        1nat
    } else {
        0nat
    } by {
        lemma_single('M', c);
        lemma_single(' ', c);
        lemma_single(',', c);
        lemma_absent(m.x@, c);
        lemma_absent(m.y@, c);
        lemma_occurrences_concat(seq![' '], m.x@, c);
        lemma_occurrences_concat(seq![' '] + m.x@, seq![','], c);
        lemma_occurrences_concat(seq![' '] + m.x@ + seq![','], m.y@, c);
        lemma_occurrences_concat(seq!['M'], cs, c);
    }
    lemma_curves_count(curves, 'M');
    lemma_curves_count(curves, 'C');
    lemma_occurrences_concat(head, curves_text(curves), 'M');
    lemma_occurrences_concat(head, curves_text(curves), 'C');
}

/// The path is a function of its parts alone: equal parts give the same text.
pub proof fn lemma_deterministic(
    s1: Option<MoveTo>,
    c1: Seq<Curve>,
    s2: Option<MoveTo>,
    c2: Seq<Curve>,
)
    requires
        s1 == s2,
        c1 == c2,
    ensures
        path_text(s1, c1) == path_text(s2, c2),
{
}

/// With no first point the path is empty, whatever else is given; with a first
/// point and no curves it is the move-to command alone, `M x,y`.
pub proof fn lemma_short_paths(m: MoveTo, curves: Seq<Curve>)
    ensures
        path_text(None, curves) == Seq::<char>::empty(),
        path_text(Some(m), Seq::empty()) == seq!['M', ' '] + m.x@ + seq![','] + m.y@,
{
    assert(curves_text(Seq::<Curve>::empty()) =~= Seq::<char>::empty());
    assert(path_text(Some(m), Seq::empty()) =~= move_to_text(m));
}

} // verus!
