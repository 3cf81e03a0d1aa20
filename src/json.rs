use vstd::prelude::*;
use vstd::string::StringExecFns;

verus! {

broadcast use vstd::std_specs::vec::group_vec_axioms;

/// A JSON document as a tree. An object keeps its members in the order in
/// which they were written, repeated names included.
#[derive(Debug)]
pub enum JsonValue {
    Null,
    Bool(bool),
    Number(u64),
    Str(String),
    Array(Vec<JsonValue>),
    Object(Vec<(String, JsonValue)>),
}

/// The JSON string literal (quotes and escapes included) that serde_json
/// writes for a string.
pub uninterp spec fn quoted(s: Seq<char>) -> Seq<char>;

/// Relies on `serde_json::to_string` on a `str`: it writes the string as a
/// JSON string literal, escaping only `"`, `\` and control characters, so a
/// string without them is only framed by quotes. Writing into its own buffer
/// cannot fail.
#[verifier::external_body]
fn quote(s: &str) -> (r: String)
    ensures
        r@ == quoted(s@),
        (forall|i: int| 0 <= i < s@.len() ==> s@[i] != '"' && s@[i] != '\\' && s@[i] >= ' ')
            ==> r@ == seq!['"'] + s@ + seq!['"'],
{
    match serde_json::to_string(s) {
        Ok(t) => t,
        Err(_) => String::new(),
    }
}

pub open spec fn digit_char(d: nat) -> char {
    let d = d % 10;
    if d == 0 { '0' } else if d == 1 { '1' } else if d == 2 { '2' } else if d == 3 { '3' }
    else if d == 4 { '4' } else if d == 5 { '5' } else if d == 6 { '6' } else if d == 7 { '7' }
    else if d == 8 { '8' } else { '9' }
}

/// The decimal digits of `n`, without leading zeros.
pub open spec fn decimal(n: nat) -> Seq<char>
    decreases n,
{
    if n < 10 {
        seq![digit_char(n)]
    } else {
        decimal(n / 10) + seq![digit_char(n % 10)]
    }
}

/// The compact JSON text of a value: no whitespace, members in order.
pub open spec fn text(v: JsonValue) -> Seq<char>
    decreases v, 0int,
{
    match v {
        JsonValue::Null => "null"@,
        JsonValue::Bool(b) => if b {
            "true"@
        } else {
            "false"@
        },
        JsonValue::Number(n) => decimal(n as nat),
        JsonValue::Str(s) => quoted(s@),
        JsonValue::Array(items) => seq!['['] + items_text(items, items.len() as int) + seq![']'],
        JsonValue::Object(members) => seq!['{'] + members_text(members, members.len() as int) + seq![
            '}',
        ],
    }
}

/// The text of the first `n` items of an array, separated by commas.
pub open spec fn items_text(items: Vec<JsonValue>, n: int) -> Seq<char>
    decreases items, n,
{
    if n <= 0 || n > items.len() {
        Seq::empty()
    } else {
        items_text(items, n - 1) + (if n > 1 {
            seq![',']
        } else {
            Seq::empty()
        }) + text(items[n - 1])
    }
}

/// The text of the first `n` members of an object, separated by commas.
pub open spec fn members_text(members: Vec<(String, JsonValue)>, n: int) -> Seq<char>
    decreases members, n,
{
    if n <= 0 || n > members.len() {
        Seq::empty()
    } else {
        members_text(members, n - 1) + (if n > 1 {
            seq![',']
        } else {
            Seq::empty()
        }) + quoted(members[n - 1].0@) + seq![':'] + text(members[n - 1].1)
    }
}

fn digit_str(d: u64) -> (r: &'static str)
    requires
        d < 10,
    ensures
        r@ == seq![digit_char(d as nat)],
{
    if d == 0 {
        proof { reveal_strlit("0"); }
        "0"
    } else if d == 1 {
        proof { reveal_strlit("1"); }
        "1"
    } else if d == 2 {
        proof { reveal_strlit("2"); }
        "2"
    } else if d == 3 {
        proof { reveal_strlit("3"); }
        "3"
    } else if d == 4 {
        proof { reveal_strlit("4"); }
        "4"
    } else if d == 5 {
        proof { reveal_strlit("5"); }
        "5"
    } else if d == 6 {
        proof { reveal_strlit("6"); }
        "6"
    } else if d == 7 {
        proof { reveal_strlit("7"); }
        "7"
    } else if d == 8 {
        proof { reveal_strlit("8"); }
        "8"
    } else {
        proof { reveal_strlit("9"); }
        "9"
    }
}

/// Appends the decimal digits of `n` to `out`.
pub fn write_decimal(n: u64, out: &mut String)
    ensures
        final(out)@ == old(out)@ + decimal(n as nat),
    decreases n,
{
    if n >= 10 {
        write_decimal(n / 10, out);
    }
    out.append(digit_str(n % 10));
    proof {
        if n >= 10 {
            assert(final(out)@ == old(out)@ + decimal(n as nat / 10) + seq![digit_char(n as nat % 10)]);
        }
    }
}

fn append_lit(out: &mut String, lit: &str)
    ensures
        final(out)@ == old(out)@ + lit@,
{
    out.append(lit);
}

impl JsonValue {
    /// Appends the compact JSON text of this value to `out`.
    pub fn write_text(&self, out: &mut String)
        ensures
            final(out)@ == old(out)@ + text(*self),
        decreases self,
    {
        match self {
            JsonValue::Null => {
                proof { reveal_strlit("null"); }
                append_lit(out, "null");
            },
            JsonValue::Bool(b) => {
                proof {
                    reveal_strlit("true");
                    reveal_strlit("false");
                }
                if *b {
                    append_lit(out, "true");
                } else {
                    append_lit(out, "false");
                }
            },
            JsonValue::Number(n) => {
                write_decimal(*n, out);
            },
            JsonValue::Str(s) => {
                let q = quote(s.as_str());
                append_lit(out, q.as_str());
            },
            JsonValue::Array(items) => {
                let ghost start = out@;
                proof {
                    reveal_strlit("[");
                    reveal_strlit("]");
                    reveal_strlit(",");
                }
                append_lit(out, "[");
                let mut i: usize = 0;
                while i < items.len()
                    invariant
                        i <= items.len(),
                        out@ == start + seq!['['] + items_text(*items, i as int),
                        *self == JsonValue::Array(*items),
                    decreases items.len() - i,
                {
                    let ghost sep: Seq<char> = if i > 0 { seq![','] } else { Seq::empty() };
                    proof {
                        reveal_strlit(",");
                        reveal_strlit(":");
                    }
                    if i > 0 {
                        append_lit(out, ",");
                    }
                    let ghost mid = out@;
                    assert(mid =~= start + seq!['['] + items_text(*items, i as int) + sep);
                    proof {
                        assert(decreases_to!(*items => items[i as int]));
                        assert(decreases_to!(*self => self->Array_0));
                    }
                    items[i].write_text(out);
                    assert(out@ == mid + text(items[i as int]));
                    proof {
                        assert(items_text(*items, i + 1) == items_text(*items, i as int) + sep
                            + text(items[i as int]));
                        assert(out@ =~= start + seq!['['] + items_text(*items, i + 1));
                    }
                    i = i + 1;
                }
                append_lit(out, "]");
            },
            JsonValue::Object(members) => {
                let ghost start = out@;
                proof {
                    reveal_strlit("{");
                    reveal_strlit("}");
                    reveal_strlit(",");
                    reveal_strlit(":");
                }
                append_lit(out, "{");
                let mut i: usize = 0;
                while i < members.len()
                    invariant
                        i <= members.len(),
                        out@ == start + seq!['{'] + members_text(*members, i as int),
                        *self == JsonValue::Object(*members),
                    decreases members.len() - i,
                {
                    let ghost sep: Seq<char> = if i > 0 { seq![','] } else { Seq::empty() };
                    proof {
                        reveal_strlit(",");
                        reveal_strlit(":");
                    }
                    if i > 0 {
                        append_lit(out, ",");
                    }
                    let ghost mid0 = out@;
                    assert(mid0 =~= start + seq!['{'] + members_text(*members, i as int) + sep);
                    let q = quote(members[i].0.as_str());
                    append_lit(out, q.as_str());
                    append_lit(out, ":");
                    let ghost mid = out@;
                    assert(mid =~= mid0 + quoted(members[i as int].0@) + seq![':']);
                    proof {
                        assert(decreases_to!(*members => members[i as int]));
                        assert(decreases_to!(*self => self->Object_0));
                        assert(decreases_to!(members[i as int] => members[i as int].1));
                    }
                    members[i].1.write_text(out);
                    assert(out@ == mid + text(members[i as int].1));
                    proof {
                        assert(members_text(*members, i + 1) == members_text(*members, i as int)
                            + sep + quoted(members[i as int].0@) + seq![':'] + text(
                            members[i as int].1,
                        ));
                        assert(out@ =~= start + seq!['{'] + members_text(*members, i + 1));
                    }
                    i = i + 1;
                }
                append_lit(out, "}");
            },
        }
    }

    /// The compact JSON text of this value.
    pub fn to_text(&self) -> (r: String)
        ensures
            r@ == text(*self),
    {
        let mut out = String::new();
        self.write_text(&mut out);
        out
    }
}

} // verus!
