use vstd::prelude::*;
use vstd::string::StringExecFns;
use vstd::utf8::encode_utf8;

verus! {

/// Columns kept free beside the bubble (two frame characters and two spaces).
pub const BUBBLE_PADDING: usize = 4;

/// Widest interior a bubble is given, whatever the terminal's width.
pub const BUBBLE_MAX_WIDTH: usize = 60;

/// The lines that word-wrapping `text` at `width` columns gives.
pub uninterp spec fn wrap_of(text: Seq<char>, width: nat) -> Seq<Seq<char>>;

/// Relies on `textwrap::wrap`: splits `text` into lines that fit `width` columns.
#[verifier::external_body]
fn wrap_text(text: &str, width: usize) -> (r: Vec<String>)
    ensures
        r.deep_view() == wrap_of(text@, width as nat),
{
    textwrap::wrap(text, width).into_iter().map(|line| line.into_owned()).collect()
}

/// What a sequence of strings holds, line by line.
pub open spec fn views(v: Seq<String>) -> Seq<Seq<char>> {
    v.map_values(|s: String| s@)
}

/// Length of a line in bytes of UTF-8, as `str::len` reports it.
pub open spec fn line_width(s: Seq<char>) -> nat {
    (encode_utf8(s).len() as usize) as nat
}

/// Width of the widest line (0 for no lines).
pub open spec fn widest(lines: Seq<Seq<char>>) -> nat
    decreases lines.len(),
{
    if lines.len() == 0 {
        0
    } else {
        let w = widest(lines.drop_last());
        let l = line_width(lines.last());
        if l > w { l } else { w }
    }
}

/// `line` followed by spaces up to `width`; a line that is already as wide is kept.
pub open spec fn padded(line: Seq<char>, width: nat) -> Seq<char> {
    if line_width(line) < width {
        line + Seq::new((width - line_width(line)) as nat, |i: int| ' ')
    } else {
        line
    }
}

/// A space and then `width + 2` copies of `fill`.
pub open spec fn border(fill: char, width: nat) -> Seq<char> {
    seq![' '] + Seq::new(width + 2, |i: int| fill)
}

/// The frame characters left and right of line `i` of `count` lines.
pub open spec fn sides(count: nat, i: int) -> (char, char) {
    if count == 1 {
        ('<', '>')
    } else if i == 0 {
        ('/', '\\')
    } else if i == count - 1 {
        ('\\', '/')
    } else {
        ('|', '|')
    }
}

/// Line `i` of `lines`, padded to `width` and framed.
pub open spec fn framed_line(lines: Seq<Seq<char>>, i: int, width: nat) -> Seq<char> {
    let (l, r) = sides(lines.len(), i);
    seq![l, ' '] + padded(lines[i], width) + seq![' ', r]
}

/// The box around already wrapped lines: a top border of underscores, one
/// framed line per wrapped line and a bottom border of dashes.
pub open spec fn framed(lines: Seq<Seq<char>>) -> Seq<Seq<char>> {
    if lines.len() == 0 {
        seq![]
    } else {
        let w = widest(lines);
        seq![border('_', w)] + Seq::new(lines.len(), |i: int| framed_line(lines, i, w)) + seq![
            border('-', w),
        ]
    }
}

/// Interior width of the bubble on a terminal of `cols` columns.
pub open spec fn wrap_width(cols: nat) -> nat {
    let w = cols - BUBBLE_PADDING;
    if w < BUBBLE_MAX_WIDTH { w as nat } else { BUBBLE_MAX_WIDTH as nat }
}

/// Whether a terminal of `cols` columns is too narrow for a bubble.
pub open spec fn too_narrow(cols: nat) -> bool {
    cols <= BUBBLE_PADDING + 10
}

/// The lines shown for `text` on a terminal of `cols` columns.
pub open spec fn bubble(text: Seq<char>, cols: nat) -> Seq<Seq<char>> {
    if too_narrow(cols) {
        seq![text]
    } else {
        framed(wrap_of(text, wrap_width(cols)))
    }
}

/// `line` with trailing spaces up to `width` bytes.
pub fn pad_line(line: &str, width: usize) -> (r: String)
    ensures
        r@ == padded(line@, width as nat),
{
    let mut s = String::from_str(line);
    let len = line.len();
    if len < width {
        let mut i: usize = len;
        while i < width
            invariant
                len <= i <= width,
                len as nat == line_width(line@),
                s@ == line@ + Seq::new((i - len) as nat, |k: int| ' '),
            decreases width - i,
        {
            proof {
                reveal_strlit(" ");
            }
            s.append(" ");
            i = i + 1;
            assert(s@ =~= line@ + Seq::new((i - len) as nat, |k: int| ' '));
        }
    } else {
        assert(s@ =~= line@);
    }
    s
}

/// A space and then `width + 2` copies of the single character `fill`.
fn border_line(fill: &str, width: usize) -> (r: String)
    requires
        fill@.len() == 1,
    ensures
        r@ == border(fill@[0], width as nat),
{
    proof {
        reveal_strlit(" ");
    }
    let mut s = String::from_str(" ");
    let mut i: usize = 0;
    while i < width
        invariant
            i <= width,
            fill@.len() == 1,
            s@ == seq![' '] + Seq::new(i as nat, |k: int| fill@[0]),
        decreases width - i,
    {
        s.append(fill);
        i = i + 1;
        assert(s@ =~= seq![' '] + Seq::new(i as nat, |k: int| fill@[0]));
    }
    s.append(fill);
    s.append(fill);
    assert(s@ =~= border(fill@[0], width as nat));
    s
}

/// The frame characters of line `i` of `count` lines, as strings.
fn side_marks(count: usize, i: usize) -> (r: (&'static str, &'static str))
    requires
        i < count,
    ensures
        r.0@ == seq![sides(count as nat, i as int).0],
        r.1@ == seq![sides(count as nat, i as int).1],
{
    proof {
        reveal_strlit("<");
        reveal_strlit(">");
        reveal_strlit("/");
        reveal_strlit("\\");
        reveal_strlit("|");
    }
    if count == 1 {
        ("<", ">")
    } else if i == 0 {
        ("/", "\\")
    } else if i + 1 == count {
        ("\\", "/")
    } else {
        ("|", "|")
    }
}

proof fn lemma_widest_step(lines: Seq<Seq<char>>, i: int)
    requires
        0 <= i < lines.len(),
    ensures
        widest(lines.take(i + 1)) == if line_width(lines[i]) > widest(lines.take(i)) {
            line_width(lines[i])
        } else {
            widest(lines.take(i))
        },
{
    assert(lines.take(i + 1).drop_last() =~= lines.take(i));
    assert(lines.take(i + 1).last() == lines[i]);
}

/// Frames already wrapped lines into a bubble; no lines give no bubble.
pub fn frame_bubble(wrapped: &Vec<String>) -> (r: Vec<String>)
    ensures
        views(r@) == framed(views(wrapped@)),
{
    let ghost lines = views(wrapped@);
    if wrapped.len() == 0 {
        let r: Vec<String> = Vec::new();
        assert(views(r@) =~= framed(lines));
        return r;
    }
    let n = wrapped.len();
    let mut widest_len: usize = 0;
    let mut i: usize = 0;
    while i < n
        invariant
            n == wrapped@.len(),
            lines == views(wrapped@),
            i <= n,
            widest_len as nat == widest(lines.take(i as int)),
        decreases n - i,
    {
        let l = wrapped[i].as_str().len();
        proof {
            lemma_widest_step(lines, i as int);
        }
        if l > widest_len {
            widest_len = l;
        }
        i = i + 1;
    }
    assert(lines.take(n as int) =~= lines);
    let ghost w = widest(lines);
    proof {
        reveal_strlit("_");
        reveal_strlit("-");
        reveal_strlit(" ");
    }
    let mut out: Vec<String> = Vec::new();
    out.push(border_line("_", widest_len));
    let mut j: usize = 0;
    while j < n
        invariant
            n == wrapped@.len(),
            n > 0,
            lines == views(wrapped@),
            w == widest(lines),
            widest_len as nat == w,
            j <= n,
            views(out@) =~= seq![border('_', w)] + Seq::new(
                j as nat,
                |k: int| framed_line(lines, k, w),
            ),
        decreases n - j,
    {
        proof {
            reveal_strlit(" ");
        }
        let (left, right) = side_marks(n, j);
        let mut line = String::from_str(left);
        line.append(" ");
        let body = pad_line(wrapped[j].as_str(), widest_len);
        line.append(body.as_str());
        line.append(" ");
        line.append(right);
        assert(lines[j as int] == wrapped@[j as int]@);
        assert(line@ =~= framed_line(lines, j as int, w));
        let ghost prev = out@;
        out.push(line);
        assert(views(out@) =~= views(prev).push(framed_line(lines, j as int, w)));
        j = j + 1;
        assert(views(out@) =~= seq![border('_', w)] + Seq::new(
            j as nat,
            |k: int| framed_line(lines, k, w),
        ));
    }
    out.push(border_line("-", widest_len));
    assert(views(out@) =~= framed(lines));
    out
}

/// Lays `text` out as a speech bubble for a terminal `term_cols` columns
/// wide. On a terminal too narrow for a box the text is the only line.
pub fn render_bubble(text: &str, term_cols: usize) -> (r: Vec<String>)
    ensures
        views(r@) == bubble(text@, term_cols as nat),
{
    if term_cols <= BUBBLE_PADDING + 10 {
        let r = vec![String::from_str(text)];
        assert(views(r@) =~= seq![text@]);
        return r;
    }
    let avail = term_cols - BUBBLE_PADDING;
    let width = if avail < BUBBLE_MAX_WIDTH { avail } else { BUBBLE_MAX_WIDTH };
    let wrapped = wrap_text(text, width);
    assert(views(wrapped@) =~= wrapped.deep_view());
    frame_bubble(&wrapped)
}

/// On a terminal too narrow for a box the layout is one line: the text,
/// unchanged.
pub proof fn lemma_narrow_terminal(text: Seq<char>, cols: nat)
    requires
        too_narrow(cols),
    ensures
        bubble(text, cols) == seq![text],
{
}

/// Where the terminal is wide enough and the text wraps to at least one line,
/// the layout is a box: a space and underscores on top, one line per wrapped
/// line, and a space and dashes at the bottom, all as wide as each other.
pub proof fn lemma_bubble_box(text: Seq<char>, cols: nat)
    requires
        !too_narrow(cols),
        wrap_of(text, wrap_width(cols)).len() > 0,
    ensures
        bubble(text, cols).len() == wrap_of(text, wrap_width(cols)).len() + 2,
        bubble(text, cols).len() >= 3,
        bubble(text, cols)[0][0] == ' ',
        forall|i: int| 1 <= i < bubble(text, cols)[0].len() ==> bubble(text, cols)[0][i] == '_',
        bubble(text, cols).last()[0] == ' ',
        forall|i: int|
            1 <= i < bubble(text, cols).last().len() ==> bubble(text, cols).last()[i] == '-',
        bubble(text, cols)[0].len() == bubble(text, cols).last().len(),
{
    let lines = wrap_of(text, wrap_width(cols));
    let w = widest(lines);
    let b = bubble(text, cols);
    assert(b[0] == border('_', w));
    assert(b.last() == border('-', w));
}

} // verus!
