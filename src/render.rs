use vstd::prelude::*;
use vstd::string::StringExecFns;

verus! {

/// Output encoding asked of the external renderer.
#[derive(Clone, Copy, Debug, PartialEq, Eq, Structural)]
pub enum ChafaFormat {
    Auto,
    Unicode,
    Kitty,
    Iterm2,
    Sixel,
}

/// Colour palette asked of the external renderer.
#[derive(Clone, Copy, Debug, PartialEq, Eq, Structural)]
pub enum ChafaColors {
    Auto,
    Truecolor,
    C256,
    C16,
}

/// The renderer's command-line word for a format.
pub open spec fn format_arg(f: ChafaFormat) -> Seq<char> {
    match f {
        ChafaFormat::Auto => seq!['a', 'u', 't', 'o'],
        ChafaFormat::Unicode => seq!['s', 'y', 'm', 'b', 'o', 'l', 's'],
        ChafaFormat::Kitty => seq!['k', 'i', 't', 't', 'y'],
        ChafaFormat::Iterm2 => seq!['i', 't', 'e', 'r', 'm'],
        ChafaFormat::Sixel => seq!['s', 'i', 'x', 'e', 'l', 's'],
    }
}

/// The renderer's command-line word for a palette.
pub open spec fn colors_arg(c: ChafaColors) -> Seq<char> {
    match c {
        ChafaColors::Auto => seq!['a', 'u', 't', 'o'],
        ChafaColors::Truecolor => seq!['f', 'u', 'l', 'l'],
        ChafaColors::C256 => seq!['2', '5', '6'],
        ChafaColors::C16 => seq!['1', '6'],
    }
}

/// Distinct formats have distinct command-line words.
pub proof fn lemma_format_arg_injective(a: ChafaFormat, b: ChafaFormat)
    requires
        format_arg(a) == format_arg(b),
    ensures
        a == b,
{
    assert(format_arg(a).len() == format_arg(b).len());
    assert(format_arg(a)[0] == format_arg(b)[0]);
}

/// Distinct palettes have distinct command-line words.
pub proof fn lemma_colors_arg_injective(a: ChafaColors, b: ChafaColors)
    requires
        colors_arg(a) == colors_arg(b),
    ensures
        a == b,
{
    assert(colors_arg(a)[0] == colors_arg(b)[0]);
}

impl ChafaFormat {
    /// The renderer's command-line word for this format.
    pub fn as_arg(self) -> (r: &'static str)
        ensures
            r@ == format_arg(self),
    {
        proof {
            reveal_strlit("auto");
            reveal_strlit("symbols");
            reveal_strlit("kitty");
            reveal_strlit("iterm");
            reveal_strlit("sixels");
        }
        match self {
            ChafaFormat::Auto => "auto",
            ChafaFormat::Unicode => "symbols",
            ChafaFormat::Kitty => "kitty",
            ChafaFormat::Iterm2 => "iterm",
            ChafaFormat::Sixel => "sixels",
        }
    }
}

impl ChafaColors {
    /// The renderer's command-line word for this palette.
    pub fn as_arg(self) -> (r: &'static str)
        ensures
            r@ == colors_arg(self),
    {
        proof {
            reveal_strlit("auto");
            reveal_strlit("full");
            reveal_strlit("256");
            reveal_strlit("16");
        }
        match self {
            ChafaColors::Auto => "auto",
            ChafaColors::Truecolor => "full",
            ChafaColors::C256 => "256",
            ChafaColors::C16 => "16",
        }
    }
}

/// The format used when retrying after a failure: auto-detection becomes
/// plain symbols.
pub open spec fn fallback_format(f: ChafaFormat) -> ChafaFormat {
    if f == ChafaFormat::Auto { ChafaFormat::Unicode } else { f }
}

/// The palette used when retrying after a failure: auto-detection becomes
/// truecolor.
pub open spec fn fallback_colors(c: ChafaColors) -> ChafaColors {
    if c == ChafaColors::Auto { ChafaColors::Truecolor } else { c }
}

/// What to do after the renderer has run.
#[derive(Clone, Copy, Debug, PartialEq, Eq, Structural)]
pub enum Step {
    /// The run succeeded: its output is the payload.
    Accept,
    /// Run once more with this format and palette.
    Retry(ChafaFormat, ChafaColors),
    /// Give up, reporting the diagnostic of the last run.
    Fail,
}

/// A renderer invocation with at most one fallback retry.
#[derive(Clone, Copy, Debug, PartialEq, Eq, Structural)]
pub struct Invocation {
    /// Format of the run in progress.
    pub format: ChafaFormat,
    /// Palette of the run in progress.
    pub colors: ChafaColors,
    /// Whether the run in progress is the retry.
    pub retried: bool,
}

/// The next state and the step after a run that `succeeded` or not.
pub open spec fn next_step(inv: Invocation, succeeded: bool) -> (Invocation, Step) {
    if succeeded {
        (inv, Step::Accept)
    } else if !inv.retried && (fallback_format(inv.format) != inv.format || fallback_colors(
        inv.colors,
    ) != inv.colors) {
        let f = fallback_format(inv.format);
        let c = fallback_colors(inv.colors);
        (Invocation { format: f, colors: c, retried: true }, Step::Retry(f, c))
    } else {
        (inv, Step::Fail)
    }
}

impl Invocation {
    /// A first run with the requested format and palette.
    pub fn new(format: ChafaFormat, colors: ChafaColors) -> (r: Self)
        ensures
            r == (Invocation { format, colors, retried: false }),
    {
        Invocation { format, colors, retried: false }
    }

    /// Decides what follows a run that `succeeded` or not: a failure is
    /// retried once, with auto-detection replaced by concrete defaults, and
    /// only where that changes the format or the palette.
    pub fn on_outcome(&mut self, succeeded: bool) -> (r: Step)
        ensures
            (*final(self), r) == next_step(*old(self), succeeded),
    {
        if succeeded {
            return Step::Accept;
        }
        let f = if self.format == ChafaFormat::Auto { ChafaFormat::Unicode } else { self.format };
        let c = if self.colors == ChafaColors::Auto { ChafaColors::Truecolor } else { self.colors };
        if !self.retried && (f != self.format || c != self.colors) {
            self.format = f;
            self.colors = c;
            self.retried = true;
            Step::Retry(f, c)
        } else {
            Step::Fail
        }
    }
}

/// A first failure with both selectors on auto-detection is retried exactly
/// once, with symbols and truecolor; a first failure with neither on
/// auto-detection is not retried; and no retry is ever retried again.
pub proof fn lemma_single_retry(format: ChafaFormat, colors: ChafaColors, inv: Invocation)
    ensures
        format == ChafaFormat::Auto && colors == ChafaColors::Auto ==> {
            let (s1, a1) = next_step(Invocation { format, colors, retried: false }, false);
            &&& a1 == Step::Retry(ChafaFormat::Unicode, ChafaColors::Truecolor)
            &&& next_step(s1, false).1 == Step::Fail
        },
        format != ChafaFormat::Auto && colors != ChafaColors::Auto ==> next_step(
            Invocation { format, colors, retried: false },
            false,
        ).1 == Step::Fail,
        inv.retried ==> next_step(inv, false).1 == Step::Fail,
{
}

/// Decimal digits of `n`.
pub open spec fn decimal(n: nat) -> Seq<char>
    decreases n,
{
    if n < 10 {
        seq![digit_char(n)]
    } else {
        decimal(n / 10) + seq![digit_char(n % 10)]
    }
}

/// The character of decimal digit `d`.
pub open spec fn digit_char(d: nat) -> char {
    seq!['0', '1', '2', '3', '4', '5', '6', '7', '8', '9'][d as int]
}

fn digit_str(d: usize) -> (r: &'static str)
    requires
        d < 10,
    ensures
        r@ == seq![digit_char(d as nat)],
{
    proof {
        reveal_strlit("0");
        reveal_strlit("1");
        reveal_strlit("2");
        reveal_strlit("3");
        reveal_strlit("4");
        reveal_strlit("5");
        reveal_strlit("6");
        reveal_strlit("7");
        reveal_strlit("8");
        reveal_strlit("9");
    }
    match d {
        0 => "0",
        1 => "1",
        2 => "2",
        3 => "3",
        4 => "4",
        5 => "5",
        6 => "6",
        7 => "7",
        8 => "8",
        _ => "9",
    }
}

/// Appends the decimal digits of `n`.
fn push_decimal(s: &mut String, n: usize)
    ensures
        final(s)@ == old(s)@ + decimal(n as nat),
    decreases n,
{
    if n >= 10 {
        push_decimal(s, n / 10);
    }
    s.append(digit_str(n % 10));
}

/// The renderer's size argument, `{cols}x{rows}`.
pub fn size_arg(cols: usize, rows: usize) -> (r: String)
    ensures
        r@ == decimal(cols as nat) + seq!['x'] + decimal(rows as nat),
{
    proof {
        reveal_strlit("x");
    }
    let mut s = String::new();
    push_decimal(&mut s, cols);
    s.append("x");
    push_decimal(&mut s, rows);
    assert(s@ =~= decimal(cols as nat) + seq!['x'] + decimal(rows as nat));
    s
}

/// The renderer's flags after the image path.
pub open spec fn renderer_flags_spec(
    cols: usize,
    rows: usize,
    format: ChafaFormat,
    colors: ChafaColors,
    animate: bool,
) -> Seq<Seq<char>> {
    let base = seq![
        seq!['-', '-', 'f', 'o', 'r', 'm', 'a', 't'],
        format_arg(format),
        seq!['-', '-', 'c', 'o', 'l', 'o', 'r', 's'],
        colors_arg(colors),
        seq!['-', '-', 's', 'i', 'z', 'e'],
        decimal(cols as nat) + seq!['x'] + decimal(rows as nat),
    ];
    if animate {
        base.push(seq!['-', '-', 'a', 'n', 'i', 'm', 'a', 't', 'e'])
    } else {
        base
    }
}

/// The flags passed to the renderer after the image path: format, palette,
/// size and, when asked, animation.
pub fn renderer_flags(
    cols: usize,
    rows: usize,
    format: ChafaFormat,
    colors: ChafaColors,
    animate: bool,
) -> (r: Vec<String>)
    ensures
        r@.map_values(|s: String| s@) == renderer_flags_spec(cols, rows, format, colors, animate),
{
    proof {
        reveal_strlit("--format");
        reveal_strlit("--colors");
        reveal_strlit("--size");
        reveal_strlit("--animate");
    }
    let mut r: Vec<String> = Vec::new();
    r.push(String::from_str("--format"));
    r.push(String::from_str(format.as_arg()));
    r.push(String::from_str("--colors"));
    r.push(String::from_str(colors.as_arg()));
    r.push(String::from_str("--size"));
    r.push(size_arg(cols, rows));
    let ghost base = r@.map_values(|s: String| s@);
    assert(base.len() == 6);
    assert(base[0] =~= seq!['-', '-', 'f', 'o', 'r', 'm', 'a', 't']);
    assert(base[1] =~= format_arg(format));
    assert(base[2] =~= seq!['-', '-', 'c', 'o', 'l', 'o', 'r', 's']);
    assert(base[3] =~= colors_arg(colors));
    assert(base[4] =~= seq!['-', '-', 's', 'i', 'z', 'e']);
    assert(base =~= renderer_flags_spec(cols, rows, format, colors, false));
    if animate {
        let ghost prev = r@;
        r.push(String::from_str("--animate"));
        assert(r@.map_values(|s: String| s@)[6] =~= seq!['-', '-', 'a', 'n', 'i', 'm', 'a', 't', 'e']);
        assert(forall|i: int| 0 <= i < 6 ==> r@[i] == prev[i]);
        assert(r@.map_values(|s: String| s@) =~= base.push(seq!['-', '-', 'a', 'n', 'i', 'm', 'a', 't', 'e']));
    }
    r
}

} // verus!
