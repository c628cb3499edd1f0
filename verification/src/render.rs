//! Textual rendering of configuration values.
//!
//! Scalars render as TOML writes them: strings quoted with the usual
//! escapes, integers in decimal, booleans as `true`/`false`; floats and
//! datetimes already carry their text.  Arrays render as `[a, b]`, tables
//! as `{ k = v }`.

use vstd::prelude::*;

use crate::value::ConfigValue;
use crate::value::ValueModel;
use crate::value::models_of;
use crate::value::entry_models_of;
use crate::value::lemma_models_of;
use crate::value::lemma_entry_models_of;

verus! {

/// Relies on String::push: appends the one character to the string.
#[verifier::external_body]
fn push_char(s: &mut String, c: char)
    ensures
        final (s)@ == old(s)@.push(c),
{
    s.push(c);
}

/// The decimal digit `d` as a character.
pub open spec fn dec_digit(d: int) -> char {
    if d == 0 {
        '0'
    } else if d == 1 {
        '1'
    } else if d == 2 {
        '2'
    } else if d == 3 {
        '3'
    } else if d == 4 {
        '4'
    } else if d == 5 {
        '5'
    } else if d == 6 {
        '6'
    } else if d == 7 {
        '7'
    } else if d == 8 {
        '8'
    } else {
        '9'
    }
}

/// The decimal rendering of a natural number, without leading zeros.
pub open spec fn dec_nat(n: nat) -> Seq<char>
    decreases n,
{
    if n < 10 {
        seq![dec_digit(n as int)]
    } else {
        dec_nat(n / 10) + seq![dec_digit((n % 10) as int)]
    }
}

/// The decimal rendering of an integer: a minus sign for negatives, then
/// the digits.
pub open spec fn dec_int(i: int) -> Seq<char> {
    if i < 0 {
        seq!['-'] + dec_nat((-i) as nat)
    } else {
        dec_nat(i as nat)
    }
}

/// What one character contributes to a quoted string: its escape where
/// TOML needs one, the character itself otherwise.
pub open spec fn escape_char(c: char) -> Seq<char> {
    if c == '"' {
        seq!['\\', '"']
    } else if c == '\\' {
        seq!['\\', '\\']
    } else if c == '\u{8}' {
        seq!['\\', 'b']
    } else if c == '\t' {
        seq!['\\', 't']
    } else if c == '\n' {
        seq!['\\', 'n']
    } else if c == '\u{c}' {
        seq!['\\', 'f']
    } else if c == '\r' {
        seq!['\\', 'r']
    } else {
        seq![c]
    }
}

/// The escaped body of a quoted string.
pub open spec fn escape_str(s: Seq<char>) -> Seq<char>
    decreases s.len(),
{
    if s.len() == 0 {
        Seq::empty()
    } else {
        escape_char(s[0]) + escape_str(s.drop_first())
    }
}

/// A string as it renders: quoted and escaped.
pub open spec fn quoted(s: Seq<char>) -> Seq<char> {
    seq!['"'] + escape_str(s) + seq!['"']
}

/// The rendering of a value.
pub open spec fn render_model(m: ValueModel) -> Seq<char>
    decreases m,
{
    match m {
        ValueModel::Str(s) => quoted(s),
        ValueModel::Int(i) => dec_int(i),
        ValueModel::Float(s) => s,
        ValueModel::Bool(b) => if b {
            "true"@
        } else {
            "false"@
        },
        ValueModel::DateTime(s) => s,
        ValueModel::Array(ms) => "["@ + render_items(ms) + "]"@,
        ValueModel::Table(es) => "{ "@ + render_entries(es) + " }"@,
    }
}

/// The renderings of array elements, joined by `, `.
pub open spec fn render_items(ms: Seq<ValueModel>) -> Seq<char>
    decreases ms,
{
    if ms.len() == 0 {
        Seq::empty()
    } else if ms.len() == 1 {
        render_model(ms[0])
    } else {
        render_model(ms[0]) + ", "@ + render_items(ms.drop_first())
    }
}

/// The renderings of table entries, `key = value`, joined by `, `.
pub open spec fn render_entries(es: Seq<(Seq<char>, ValueModel)>) -> Seq<char>
    decreases es,
{
    if es.len() == 0 {
        Seq::empty()
    } else if es.len() == 1 {
        es[0].0 + " = "@ + render_model(es[0].1)
    } else {
        es[0].0 + " = "@ + render_model(es[0].1) + ", "@ + render_entries(es.drop_first())
    }
}

fn digit_char(d: u64) -> (c: char)
    requires
        d < 10,
    ensures
        c == dec_digit(d as int),
{
    match d {
        0 => '0',
        1 => '1',
        2 => '2',
        3 => '3',
        4 => '4',
        5 => '5',
        6 => '6',
        7 => '7',
        8 => '8',
        _ => '9',
    }
}

fn push_dec_u64(out: &mut String, n: u64)
    ensures
        final (out)@ == old(out)@ + dec_nat(n as nat),
    decreases n,
{
    if n < 10 {
        push_char(out, digit_char(n));
        proof {
            assert(out@ =~= old(out)@ + dec_nat(n as nat));
        }
    } else {
        push_dec_u64(out, n / 10);
        push_char(out, digit_char(n % 10));
        proof {
            assert(out@ =~= old(out)@ + dec_nat(n as nat));
        }
    }
}

/// The decimal rendering of an integer.
pub fn render_int(i: i64) -> (r: String)
    ensures
        r@ == dec_int(i as int),
{
    let mut out = String::new();
    if i < 0 {
        push_char(&mut out, '-');
        let wide: i128 = i as i128;
        let mag: u64 = (-wide) as u64;
        push_dec_u64(&mut out, mag);
        proof {
            assert(out@ =~= dec_int(i as int));
        }
    } else {
        push_dec_u64(&mut out, i as u64);
    }
    out
}

fn escape_one(c: char) -> (r: String)
    ensures
        r@ == escape_char(c),
{
    let mut out = String::new();
    if c == '"' {
        push_char(&mut out, '\\');
        push_char(&mut out, '"');
    } else if c == '\\' {
        push_char(&mut out, '\\');
        push_char(&mut out, '\\');
    } else if c == '\u{8}' {
        push_char(&mut out, '\\');
        push_char(&mut out, 'b');
    } else if c == '\t' {
        push_char(&mut out, '\\');
        push_char(&mut out, 't');
    } else if c == '\n' {
        push_char(&mut out, '\\');
        push_char(&mut out, 'n');
    } else if c == '\u{c}' {
        push_char(&mut out, '\\');
        push_char(&mut out, 'f');
    } else if c == '\r' {
        push_char(&mut out, '\\');
        push_char(&mut out, 'r');
    } else {
        push_char(&mut out, c);
    }
    proof {
        assert(out@ =~= escape_char(c));
    }
    out
}

fn push_escaped(out: &mut String, s: &str, i: usize, n: usize)
    requires
        n == s@.len(),
        i <= n,
    ensures
        final (out)@ == old(out)@ + escape_str(s@.subrange(i as int, n as int)),
    decreases n - i,
{
    if i == n {
        proof {
            assert(s@.subrange(i as int, n as int) =~= Seq::empty());
        }
        return ;
    }
    let c = s.get_char(i);
    let piece = escape_one(c);
    out.append(piece.as_str());
    push_escaped(out, s, i + 1, n);
    proof {
        let whole = s@.subrange(i as int, n as int);
        assert(whole.drop_first() =~= s@.subrange(i as int + 1, n as int));
        assert(whole[0] == s@[i as int]);
        assert(out@ =~= old(out)@ + escape_str(whole));
    }
}

/// A string rendered as a quoted TOML string.
pub fn render_str(s: &str) -> (r: String)
    ensures
        r@ == quoted(s@),
{
    let mut out = String::new();
    push_char(&mut out, '"');
    let n = s.unicode_len();
    push_escaped(&mut out, s, 0, n);
    push_char(&mut out, '"');
    proof {
        assert(s@.subrange(0, n as int) =~= s@);
        assert(out@ =~= quoted(s@));
    }
    out
}

/// The rendering of a value, as `render_model` states it.
pub fn render_value(v: &ConfigValue) -> (r: String)
    ensures
        r@ == render_model(v@),
    decreases *v, 0int,
{
    match v {
        ConfigValue::Str(s) => render_str(s.as_str()),
        ConfigValue::Int(i) => render_int(*i),
        ConfigValue::Float(s) => s.clone(),
        ConfigValue::Bool(b) => {
            if *b {
                "true".to_owned()
            } else {
                "false".to_owned()
            }
        },
        ConfigValue::DateTime(s) => s.clone(),
        ConfigValue::Array(vs) => {
            let mut out: String = "[".to_owned();
            let items = render_items_from(vs, 0);
            out.append(items.as_str());
            out.append("]");
            proof {
                lemma_models_of(vs@);
                assert(models_of(vs@).subrange(0, vs@.len() as int) =~= models_of(vs@));
                assert(out@ =~= render_model(v@));
            }
            out
        },
        ConfigValue::Table(es) => {
            let mut out: String = "{ ".to_owned();
            let entries = render_entries_from(es, 0);
            out.append(entries.as_str());
            out.append(" }");
            proof {
                lemma_entry_models_of(es@);
                assert(entry_models_of(es@).subrange(0, es@.len() as int) =~= entry_models_of(
                    es@,
                ));
                assert(out@ =~= render_model(v@));
            }
            out
        },
    }
}

fn render_items_from(vs: &Vec<ConfigValue>, i: usize) -> (r: String)
    requires
        i <= vs@.len(),
    ensures
        r@ == render_items(models_of(vs@).subrange(i as int, vs@.len() as int)),
    decreases *vs, vs@.len() - i,
{
    proof {
        lemma_models_of(vs@);
    }
    let ghost suffix = models_of(vs@).subrange(i as int, vs@.len() as int);
    if i == vs.len() {
        proof {
            assert(suffix =~= Seq::empty());
        }
        String::new()
    } else if i + 1 == vs.len() {
        let r = render_value(&vs[i]);
        proof {
            assert(suffix =~= seq![models_of(vs@)[i as int]]);
        }
        r
    } else {
        let mut out = render_value(&vs[i]);
        out.append(", ");
        let rest = render_items_from(vs, i + 1);
        out.append(rest.as_str());
        proof {
            assert(suffix.drop_first() =~= models_of(vs@).subrange(
                i as int + 1,
                vs@.len() as int,
            ));
            assert(suffix[0] == models_of(vs@)[i as int]);
            assert(out@ =~= render_items(suffix));
        }
        out
    }
}

fn render_entries_from(es: &Vec<(String, ConfigValue)>, i: usize) -> (r: String)
    requires
        i <= es@.len(),
    ensures
        r@ == render_entries(entry_models_of(es@).subrange(i as int, es@.len() as int)),
    decreases *es, es@.len() - i,
{
    proof {
        lemma_entry_models_of(es@);
    }
    let ghost suffix = entry_models_of(es@).subrange(i as int, es@.len() as int);
    if i == es.len() {
        proof {
            assert(suffix =~= Seq::empty());
        }
        String::new()
    } else {
        let mut out = es[i].0.clone();
        out.append(" = ");
        let piece = render_value(&es[i].1);
        out.append(piece.as_str());
        if i + 1 == es.len() {
            proof {
                assert(suffix =~= seq![entry_models_of(es@)[i as int]]);
                assert(out@ =~= render_entries(suffix));
            }
            out
        } else {
            out.append(", ");
            let rest = render_entries_from(es, i + 1);
            out.append(rest.as_str());
            proof {
                assert(suffix.drop_first() =~= entry_models_of(es@).subrange(
                    i as int + 1,
                    es@.len() as int,
                ));
                assert(suffix[0] == entry_models_of(es@)[i as int]);
                assert(out@ =~= render_entries(suffix));
            }
            out
        }
    }
}

} // verus!
