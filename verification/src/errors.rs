//! The model of the validation engine's error taxonomy, and the rendering of
//! structural instance paths.
//!
//! The engine reports failures as consensus errors.  Only the basic-error
//! category is reported to the user; within it, a JSON-schema error carries a
//! rule-failure summary and a structural path into the document.  The path
//! renders as a JSON pointer: one `/`-introduced segment per step, with `~`
//! written `~0` and `/` written `~1` inside a property name, and the empty
//! path rendering as the empty string.

use vstd::prelude::*;

verus! {

/// One step of a structural instance path: a property name or an array index.
#[derive(Clone, Debug)]
pub enum PathStep {
    Property(String),
    Index(u64),
}

/// A violated JSON-schema rule: a human-readable summary of the rule failure
/// and the structural path to the place in the document where it occurred.
#[derive(Clone, Debug)]
pub struct JsonSchemaError {
    pub error_summary: String,
    pub instance_path: Vec<PathStep>,
}

/// The basic-error category of consensus error.  A JSON-schema error gets a
/// dedicated rendering; every other basic error carries its own display text.
#[derive(Clone, Debug)]
pub enum BasicError {
    JsonSchema(JsonSchemaError),
    Other(String),
}

/// The engine's top-level error taxonomy.  Only basic errors are reported to
/// the user; every other category is dropped by the extractor.
#[derive(Clone, Debug)]
pub enum ConsensusError {
    Basic(BasicError),
    NonBasic,
}

/// How one character of a property name appears inside a rendered path:
/// `~` and `/` are escaped as `~0` and `~1`, every other character stands
/// for itself.
pub open spec fn escape_char(c: char) -> Seq<char> {
    if c == '~' {
        seq!['~', '0']
    } else if c == '/' {
        seq!['~', '1']
    } else {
        seq![c]
    }
}

/// A property name with each character escaped.
pub open spec fn escape_chars(s: Seq<char>) -> Seq<char>
    decreases s.len(),
{
    if s.len() == 0 {
        Seq::empty()
    } else {
        escape_char(s[0]) + escape_chars(s.drop_first())
    }
}

/// The decimal digit for a value below ten.
pub open spec fn digit_char(d: nat) -> char {
    if d == 0 {
        '0'
    } else if d == 1 {
        '1'
    } else if d == 2 {
        '2'
    } else if d == 3 {
        '3'
    } else if d == 4 {
        '4'
    } else if d == 5 {
        '5'
    } else if d == 6 {
        '6'
    } else if d == 7 {
        '7'
    } else if d == 8 {
        '8'
    } else {
        '9'
    }
}

/// The usual decimal rendering of a number, with no leading zeros except for
/// the number zero itself.
pub open spec fn decimal_chars(n: nat) -> Seq<char>
    decreases n,
{
    if n < 10 {
        seq![digit_char(n)]
    } else {
        decimal_chars(n / 10).push(digit_char(n % 10))
    }
}

/// The characters one path step contributes after its introducing `/`.
pub open spec fn step_chars(s: PathStep) -> Seq<char> {
    match s {
        PathStep::Property(name) => escape_chars(name@),
        PathStep::Index(i) => decimal_chars(i as nat),
    }
}

/// The rendering of a whole path: `/` before each step, and the empty string
/// for the empty path.
pub open spec fn rendered_path(steps: Seq<PathStep>) -> Seq<char>
    decreases steps.len(),
{
    if steps.len() == 0 {
        Seq::empty()
    } else {
        seq!['/'] + step_chars(steps[0]) + rendered_path(steps.drop_first())
    }
}

/// A one-character string for a decimal digit.
fn digit_str(d: u64) -> (s: String)
    requires
        d < 10,
    ensures
        s@ =~= seq![digit_char(d as nat)],
{
    proof {
        reveal_strlit("0");
        reveal_strlit("1");
        reveal_strlit("2");
        reveal_strlit("3");
        reveal_strlit("4");
        reveal_strlit("5");
        reveal_strlit("6");
        reveal_strlit("7");
        reveal_strlit("8");
        reveal_strlit("9");
    }
    if d == 0 {
        String::from_str("0")
    } else if d == 1 {
        String::from_str("1")
    } else if d == 2 {
        String::from_str("2")
    } else if d == 3 {
        String::from_str("3")
    } else if d == 4 {
        String::from_str("4")
    } else if d == 5 {
        String::from_str("5")
    } else if d == 6 {
        String::from_str("6")
    } else if d == 7 {
        String::from_str("7")
    } else if d == 8 {
        String::from_str("8")
    } else {
        String::from_str("9")
    }
}

/// Renders an array index in decimal.
fn decimal_string(n: u64) -> (s: String)
    ensures
        s@ =~= decimal_chars(n as nat),
    decreases n,
{
    if n < 10 {
        digit_str(n)
    } else {
        let mut s = decimal_string(n / 10);
        let d = digit_str(n % 10);
        s.append(d.as_str());
        proof {
            assert(s@ =~= decimal_chars(n as nat));
        }
        s
    }
}

/// Appending a character to a property name appends that character's escape
/// to the escaped name.
proof fn lemma_escape_chars_push(s: Seq<char>, c: char)
    ensures
        escape_chars(s.push(c)) =~= escape_chars(s) + escape_char(c),
    decreases s.len(),
{
    let t = s.push(c);
    assert(t.len() == s.len() + 1);
    if s.len() == 0 {
        assert(t.drop_first() =~= Seq::<char>::empty());
        assert(t[0] == c);
        assert(escape_chars(t) == escape_char(c) + escape_chars(Seq::<char>::empty()));
        assert(escape_chars(t) =~= escape_chars(s) + escape_char(c));
    } else {
        assert(t.drop_first() =~= s.drop_first().push(c));
        lemma_escape_chars_push(s.drop_first(), c);
        assert(t[0] == s[0]);
        assert(escape_chars(t) == escape_char(s[0]) + escape_chars(s.drop_first().push(c)));
        assert(escape_chars(t) =~= escape_chars(s) + escape_char(c));
    }
}

/// Escapes a property name for use inside a rendered path.
fn escape_segment(name: &str) -> (out: String)
    ensures
        out@ =~= escape_chars(name@),
{
    let len = name.unicode_len();
    let mut out = String::new();
    let mut i: usize = 0;
    while i < len
        invariant
            i <= len,
            len == name@.len(),
            out@ =~= escape_chars(name@.take(i as int)),
        decreases len - i,
    {
        let c = name.get_char(i);
        if c == '~' {
            out.append("~0");
            proof {
                reveal_strlit("~0");
                assert(("~0")@ =~= escape_char(name@[i as int]));
            }
        } else if c == '/' {
            out.append("~1");
            proof {
                reveal_strlit("~1");
                assert(("~1")@ =~= escape_char(name@[i as int]));
            }
        } else {
            let piece = name.substring_char(i, i + 1);
            out.append(piece);
            proof {
                assert(piece@ =~= escape_char(name@[i as int]));
            }
        }
        proof {
            lemma_escape_chars_push(name@.take(i as int), name@[i as int]);
            assert(name@.take((i + 1) as int) =~= name@.take(i as int).push(name@[i as int]));
        }
        i = i + 1;
    }
    proof {
        assert(name@.take(len as int) =~= name@);
    }
    out
}

/// Appending a step to a path appends `/` and that step's characters to the
/// rendering.
proof fn lemma_rendered_path_push(steps: Seq<PathStep>, s: PathStep)
    ensures
        rendered_path(steps.push(s)) =~= rendered_path(steps) + seq!['/'] + step_chars(s),
    decreases steps.len(),
{
    let t = steps.push(s);
    assert(t.len() == steps.len() + 1);
    if steps.len() == 0 {
        assert(t.drop_first() =~= Seq::<PathStep>::empty());
        assert(t[0] == s);
        assert(rendered_path(t) == seq!['/'] + step_chars(s) + rendered_path(
            Seq::<PathStep>::empty(),
        ));
        assert(rendered_path(t) =~= rendered_path(steps) + seq!['/'] + step_chars(s));
    } else {
        assert(t.drop_first() =~= steps.drop_first().push(s));
        lemma_rendered_path_push(steps.drop_first(), s);
        assert(t[0] == steps[0]);
        assert(rendered_path(t) == seq!['/'] + step_chars(steps[0]) + rendered_path(
            steps.drop_first().push(s),
        ));
        assert(rendered_path(t) =~= rendered_path(steps) + seq!['/'] + step_chars(s));
    }
}

/// Renders a structural instance path as a JSON pointer.  The empty path
/// renders as the empty string, not as a missing component.
pub fn render_instance_path(steps: &Vec<PathStep>) -> (out: String)
    ensures
        out@ =~= rendered_path(steps@),
{
    let mut out = String::new();
    let mut i: usize = 0;
    while i < steps.len()
        invariant
            i <= steps@.len(),
            out@ =~= rendered_path(steps@.take(i as int)),
        decreases steps@.len() - i,
    {
        out.append("/");
        proof {
            reveal_strlit("/");
            assert(("/")@ =~= seq!['/']);
        }
        match &steps[i] {
            PathStep::Property(name) => {
                let piece = escape_segment(name.as_str());
                out.append(piece.as_str());
            },
            PathStep::Index(n) => {
                let piece = decimal_string(*n);
                out.append(piece.as_str());
            },
        }
        proof {
            lemma_rendered_path_push(steps@.take(i as int), steps@[i as int]);
            assert(steps@.take((i + 1) as int) =~= steps@.take(i as int).push(steps@[i as int]));
            assert(out@ =~= rendered_path(steps@.take((i + 1) as int)));
        }
        i = i + 1;
    }
    proof {
        assert(steps@.take(steps@.len() as int) =~= steps@);
    }
    out
}

/// A schema error at the document root has no path segments, and its path
/// component renders as the empty string rather than being omitted.
pub proof fn lemma_root_path_renders_empty()
    ensures
        rendered_path(Seq::<PathStep>::empty()) =~= Seq::<char>::empty(),
{
}

} // verus!
