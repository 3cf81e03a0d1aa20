use vstd::prelude::*;
use vstd::string::StringExecFns;
use crate::json::JsonValue;

verus! {

/// Why a JSON value could not be read as one of the library's types.
#[derive(Debug, Clone)]
pub enum DecodeError {
    /// An object was expected.
    NotAnObject,
    /// A member name outside the accepted schema, with the names that the
    /// object accepts.
    UnknownField(String, Vec<String>),
    /// A member name that occurs a second time.
    DuplicateField(String),
    /// A member of the schema that does not occur.
    MissingField(String),
    /// The member of this name holds a value of the wrong shape.
    InvalidValue(String),
}

/// The mathematical form of a `DecodeError`.
pub enum Failure {
    NotAnObject,
    UnknownField(Seq<char>, Seq<Seq<char>>),
    DuplicateField(Seq<char>),
    MissingField(Seq<char>),
    InvalidValue(Seq<char>),
}

impl View for DecodeError {
    type V = Failure;

    open spec fn view(&self) -> Failure {
        match self {
            DecodeError::NotAnObject => Failure::NotAnObject,
            DecodeError::UnknownField(s, a) => Failure::UnknownField(s@, strings_view(a@)),
            DecodeError::DuplicateField(s) => Failure::DuplicateField(s@),
            DecodeError::MissingField(s) => Failure::MissingField(s@),
            DecodeError::InvalidValue(s) => Failure::InvalidValue(s@),
        }
    }
}

pub open spec fn strings_view(a: Seq<String>) -> Seq<Seq<char>> {
    a.map_values(|t: String| t@)
}

/// The accepted names, each as `` `name` `` after a space.
pub open spec fn listing(accepted: Seq<Seq<char>>, n: int) -> Seq<char>
    decreases n,
{
    if n <= 0 || n > accepted.len() {
        Seq::empty()
    } else {
        listing(accepted, n - 1) + " `"@ + accepted[n - 1] + "`"@
    }
}

/// The message for a failure; one on an unknown member lists the names that
/// its object accepts.
pub open spec fn message(e: Failure) -> Seq<char> {
    match e {
        Failure::NotAnObject => "expected a JSON object"@,
        Failure::UnknownField(f, accepted) => "unknown field `"@ + f + "`, expected one of:"@ + listing(
            accepted,
            accepted.len() as int,
        ),
        Failure::DuplicateField(f) => "duplicate field `"@ + f + "`"@,
        Failure::MissingField(f) => "missing field `"@ + f + "`"@,
        Failure::InvalidValue(f) => "invalid value for field `"@ + f + "`"@,
    }
}

impl DecodeError {
    /// A message for this error.
    pub fn describe(&self) -> (r: String)
        ensures
            r@ == message(self@),
    {
        let mut out = String::new();
        match self {
            DecodeError::NotAnObject => out.append("expected a JSON object"),
            DecodeError::UnknownField(s, accepted) => {
                out.append("unknown field `");
                out.append(s.as_str());
                out.append("`, expected one of:");
                let ghost start = out@;
                let mut i: usize = 0;
                while i < accepted.len()
                    invariant
                        i <= accepted.len(),
                        out@ == start + listing(strings_view(accepted@), i as int),
                    decreases accepted.len() - i,
                {
                    out.append(" `");
                    out.append(accepted[i].as_str());
                    out.append("`");
                    assert(out@ =~= start + listing(strings_view(accepted@), i + 1));
                    i = i + 1;
                }
            },
            DecodeError::DuplicateField(s) => {
                out.append("duplicate field `");
                out.append(s.as_str());
                out.append("`");
            },
            DecodeError::MissingField(s) => {
                out.append("missing field `");
                out.append(s.as_str());
                out.append("`");
            },
            DecodeError::InvalidValue(s) => {
                out.append("invalid value for field `");
                out.append(s.as_str());
                out.append("`");
            },
        }
        assert(out@ =~= message(self@));
        out
    }
}

/// The member names of an object, in order.
pub open spec fn keys_of(members: Seq<(String, JsonValue)>) -> Seq<Seq<char>> {
    members.map_values(|p: (String, JsonValue)| p.0@)
}

/// The names of a schema.
pub open spec fn names_of(schema: Seq<&str>) -> Seq<Seq<char>> {
    schema.map_values(|s: &str| s@)
}

/// The name at `i` is outside the schema or repeats an earlier one.
pub open spec fn misplaced(keys: Seq<Seq<char>>, names: Seq<Seq<char>>, i: int) -> bool {
    !names.contains(keys[i]) || keys.take(i).contains(keys[i])
}

pub open spec fn first_misplaced(keys: Seq<Seq<char>>, names: Seq<Seq<char>>, i: int) -> bool {
    &&& 0 <= i < keys.len()
    &&& misplaced(keys, names, i)
    &&& forall|k: int| 0 <= k < i ==> !misplaced(keys, names, k)
}

pub open spec fn key_failure(keys: Seq<Seq<char>>, names: Seq<Seq<char>>, i: int) -> Failure {
    if !names.contains(keys[i]) {
        Failure::UnknownField(keys[i], names)
    } else {
        Failure::DuplicateField(keys[i])
    }
}

pub open spec fn first_missing(keys: Seq<Seq<char>>, names: Seq<Seq<char>>, j: int) -> bool {
    &&& 0 <= j < names.len()
    &&& !keys.contains(names[j])
    &&& forall|k: int| 0 <= k < j ==> keys.contains(names[k])
}

/// How the member names of an object measure up to a schema: the first
/// misplaced name, else the first name of the schema that is absent.
pub open spec fn members_check(keys: Seq<Seq<char>>, names: Seq<Seq<char>>) -> Result<(), Failure> {
    if exists|i: int| first_misplaced(keys, names, i) {
        Err(key_failure(keys, names, choose|i: int| first_misplaced(keys, names, i)))
    } else if exists|j: int| first_missing(keys, names, j) {
        Err(Failure::MissingField(names[choose|j: int| first_missing(keys, names, j)]))
    } else {
        Ok(())
    }
}

/// The value of the last member with this name.
pub open spec fn value_at(members: Seq<(String, JsonValue)>, name: Seq<char>) -> JsonValue
    decreases members.len(),
{
    if members.len() == 0 {
        JsonValue::Null
    } else if members.last().0@ == name {
        members.last().1
    } else {
        value_at(members.drop_last(), name)
    }
}

/// The values of the members of an object in the order of a schema, or why
/// there are none.
pub open spec fn fields_of(v: JsonValue, names: Seq<Seq<char>>) -> Result<Seq<JsonValue>, Failure> {
    match v {
        JsonValue::Object(m) => match members_check(keys_of(m@), names) {
            Err(e) => Err(e),
            Ok(_) => Ok(Seq::new(names.len(), |j: int| value_at(m@, names[j]))),
        },
        _ => Err(Failure::NotAnObject),
    }
}

proof fn lemma_first_misplaced_unique(keys: Seq<Seq<char>>, names: Seq<Seq<char>>, i: int, k: int)
    requires
        first_misplaced(keys, names, i),
        first_misplaced(keys, names, k),
    ensures
        i == k,
{
}

proof fn lemma_first_missing_unique(keys: Seq<Seq<char>>, names: Seq<Seq<char>>, i: int, k: int)
    requires
        first_missing(keys, names, i),
        first_missing(keys, names, k),
    ensures
        i == k,
{
}

/// Where no member name repeats, the value of a name is the one at its
/// position.
pub proof fn lemma_value_at(members: Seq<(String, JsonValue)>, names: Seq<Seq<char>>, i: int)
    requires
        0 <= i < members.len(),
        forall|k: int| 0 <= k < members.len() ==> !misplaced(keys_of(members), names, k),
    ensures
        value_at(members, members[i].0@) == members[i].1,
    decreases members.len(),
{
    let keys = keys_of(members);
    let n = members.len() - 1;
    if i < n {
        assert(keys[n] == members[n].0@);
        assert(keys[i] == members[i].0@);
        if members[n].0@ == members[i].0@ {
            assert(keys.take(n)[i] == keys[n]);
            assert(keys.take(n).contains(keys[n]));
            assert(!misplaced(keys, names, n));
        }
        let prefix = members.drop_last();
        assert(keys_of(prefix) =~= keys.take(n));
        assert forall|k: int| 0 <= k < prefix.len() implies !misplaced(keys_of(prefix), names, k) by {
            assert(!misplaced(keys, names, k));
            assert(keys.take(n).take(k) =~= keys.take(k));
        }
        lemma_value_at(prefix, names, i);
    }
}

/// An object whose member names are exactly the schema's, in its order,
/// yields its values in that order.
pub proof fn lemma_fields_in_order(members: Vec<(String, JsonValue)>, names: Seq<Seq<char>>)
    requires
        keys_of(members@) == names,
        names.no_duplicates(),
    ensures
        fields_of(JsonValue::Object(members), names) == Ok::<Seq<JsonValue>, Failure>(
            members@.map_values(|p: (String, JsonValue)| p.1),
        ),
{
    let keys = keys_of(members@);
    assert forall|k: int| 0 <= k < members.len() implies !misplaced(keys, names, k) by {
        assert(names[k] == keys[k]);
        if keys.take(k).contains(keys[k]) {
            let u = choose|u: int| 0 <= u < k && keys.take(k)[u] == keys[k];
            assert(names[u] == names[k]);
        }
    }
    assert(!exists|i: int| first_misplaced(keys, names, i));
    assert forall|j: int| 0 <= j < names.len() implies keys.contains(names[j]) by {
        assert(keys[j] == names[j]);
    }
    assert(!exists|j: int| first_missing(keys, names, j));
    assert forall|j: int| 0 <= j < names.len() implies value_at(members@, names[j]) == members@[j].1 by {
        assert(keys[j] == members@[j].0@);
        lemma_value_at(members@, names, j);
    }
    assert(Seq::new(names.len(), |j: int| value_at(members@, names[j])) =~= members@.map_values(
        |p: (String, JsonValue)| p.1,
    ));
}

/// Where some member name is misplaced, there is a first one.
pub proof fn lemma_first_misplaced_exists(keys: Seq<Seq<char>>, names: Seq<Seq<char>>, k: int)
    requires
        0 <= k < keys.len(),
        misplaced(keys, names, k),
    ensures
        exists|i: int| first_misplaced(keys, names, i),
    decreases k,
{
    if exists|j: int| 0 <= j < k && misplaced(keys, names, j) {
        let j = choose|j: int| 0 <= j < k && misplaced(keys, names, j);
        lemma_first_misplaced_exists(keys, names, j);
    } else {
        assert(first_misplaced(keys, names, k));
    }
}

pub(crate) fn same_name(key: &String, name: &str) -> (r: bool)
    ensures
        r == (key@ == name@),
{
    let s = String::from_str(name);
    *key == s
}

/// The names of a schema as owned strings.
fn owned_names(schema: &Vec<&str>) -> (r: Vec<String>)
    ensures
        strings_view(r@) == names_of(schema@),
{
    let mut r: Vec<String> = Vec::new();
    let mut i: usize = 0;
    while i < schema.len()
        invariant
            i <= schema.len(),
            r.len() == i,
            strings_view(r@) == names_of(schema@).take(i as int),
        decreases schema.len() - i,
    {
        let ghost before = r@;
        let t = String::from_str(schema[i]);
        assert(t@ == names_of(schema@)[i as int]);
        r.push(t);
        assert(strings_view(before) =~= names_of(schema@).take(i as int));
        assert(strings_view(r@) =~= names_of(schema@).take(i + 1)) by {
            assert forall|k: int| 0 <= k < i + 1 implies strings_view(r@)[k] == names_of(schema@).take(i + 1)[k] by {
                if k < i {
                    assert(r@[k] == before[k]);
                    assert(strings_view(before)[k] == names_of(schema@).take(i as int)[k]);
                }
            }
        }
        i = i + 1;
    }
    assert(names_of(schema@).take(schema.len() as int) =~= names_of(schema@));
    r
}

/// Finds, for each name of the schema, the position of the member that
/// carries it; fails on the first member outside the schema or repeated,
/// else on the first name of the schema that no member carries.
pub fn locate_fields(members: &Vec<(String, JsonValue)>, schema: &Vec<&str>) -> (r: Result<
    Vec<usize>,
    DecodeError,
>)
    ensures
        match r {
            Ok(pos) => {
                &&& members_check(keys_of(members@), names_of(schema@)) is Ok
                &&& forall|k: int|
                    0 <= k < members.len() ==> !misplaced(keys_of(members@), names_of(schema@), k)
                &&& pos.len() == schema.len()
                &&& forall|j: int|
                    0 <= j < pos.len() ==> #[trigger] pos[j] < members.len() && members@[pos[j] as int].0@
                        == schema@[j]@
            },
            Err(e) => members_check(keys_of(members@), names_of(schema@)) == Err::<(), Failure>(e@),
        },
{
    let ghost keys = keys_of(members@);
    let ghost names = names_of(schema@);
    let mut i: usize = 0;
    while i < members.len()
        invariant
            i <= members.len(),
            keys == keys_of(members@),
            names == names_of(schema@),
            forall|k: int| 0 <= k < i ==> !misplaced(keys, names, k),
        decreases members.len() - i,
    {
        let key = &members[i].0;
        let mut known = false;
        let mut j: usize = 0;
        while j < schema.len()
            invariant
                j <= schema.len(),
                i < members.len(),
                key == members@[i as int].0,
                keys == keys_of(members@),
                names == names_of(schema@),
                forall|k: int| 0 <= k < i ==> !misplaced(keys, names, k),
                known ==> names.contains(key@),
                !known ==> forall|t: int| 0 <= t < j ==> names[t] != key@,
            decreases schema.len() - j,
        {
            if !known && same_name(key, schema[j]) {
                known = true;
                assert(names[j as int] == key@);
            }
            j = j + 1;
        }
        if !known {
            proof {
                assert(keys[i as int] == key@);
                assert(first_misplaced(keys, names, i as int));
                assert forall|t: int| first_misplaced(keys, names, t) implies t == i by {
                    lemma_first_misplaced_unique(keys, names, t, i as int);
                }
            }
            return Err(DecodeError::UnknownField(key.clone(), owned_names(schema)));
        }
        let mut t: usize = 0;
        while t < i
            invariant
                t <= i,
                i < members.len(),
                key == members@[i as int].0,
                keys == keys_of(members@),
                names == names_of(schema@),
                names.contains(key@),
                forall|k: int| 0 <= k < i ==> !misplaced(keys, names, k),
                forall|u: int| 0 <= u < t ==> keys[u] != key@,
            decreases i - t,
        {
            proof {
                assert(keys[t as int] == members@[t as int].0@);
            }
            if same_name(&members[t].0, key.as_str()) {
                proof {
                    assert(keys[t as int] == members@[t as int].0@);
                    assert(keys[i as int] == members@[i as int].0@);
                    assert(keys.take(i as int)[t as int] == keys[i as int]);
                    assert(keys.take(i as int).contains(keys[i as int]));
                    assert(first_misplaced(keys, names, i as int));
                    assert forall|w: int| first_misplaced(keys, names, w) implies w == i by {
                        lemma_first_misplaced_unique(keys, names, w, i as int);
                    }
                }
                return Err(DecodeError::DuplicateField(key.clone()));
            }
            t = t + 1;
        }
        proof {
            assert(keys[i as int] == key@);
            assert(names.contains(keys[i as int]));
            assert(!keys.take(i as int).contains(keys[i as int])) by {
                if keys.take(i as int).contains(keys[i as int]) {
                    let u = choose|u: int| 0 <= u < i && keys.take(i as int)[u] == keys[i as int];
                    assert(keys[u] == key@);
                }
            }
        }
        i = i + 1;
    }
    assert(!exists|t: int| first_misplaced(keys, names, t));
    let mut pos: Vec<usize> = Vec::new();
    let mut j: usize = 0;
    while j < schema.len()
        invariant
            j <= schema.len(),
            keys == keys_of(members@),
            names == names_of(schema@),
            forall|k: int| 0 <= k < members.len() ==> !misplaced(keys, names, k),
            pos.len() == j,
            forall|u: int|
                0 <= u < j ==> #[trigger] pos[u] < members.len() && members@[pos[u] as int].0@
                    == schema@[u]@,
            forall|u: int| 0 <= u < j ==> keys.contains(names[u]),
        decreases schema.len() - j,
    {
        let mut found: usize = members.len();
        let mut k: usize = 0;
        while k < members.len()
            invariant
                k <= members.len(),
                j < schema.len(),
                keys == keys_of(members@),
                found == members.len() ==> forall|u: int| 0 <= u < k ==> keys[u] != schema@[j as int]@,
                found < members.len() ==> members@[found as int].0@ == schema@[j as int]@,
                found <= members.len(),
            decreases members.len() - k,
        {
            proof {
                assert(keys[k as int] == members@[k as int].0@);
            }
            if found == members.len() && same_name(&members[k].0, schema[j]) {
                found = k;
            }
            k = k + 1;
        }
        if found == members.len() {
            proof {
                assert(names[j as int] == schema@[j as int]@);
                assert(!keys.contains(names[j as int]));
                assert(first_missing(keys, names, j as int));
                assert forall|w: int| first_missing(keys, names, w) implies w == j by {
                    lemma_first_missing_unique(keys, names, w, j as int);
                }
            }
            return Err(DecodeError::MissingField(String::from_str(schema[j])));
        }
        proof {
            assert(keys[found as int] == names[j as int]);
        }
        assert(found < members.len());
        assert(members@[found as int].0@ == schema@[j as int]@);
        let ghost old_pos = pos@;
        pos.push(found);
        assert(pos@[j as int] == found);
        proof {
            assert forall|u: int| 0 <= u < j + 1 implies #[trigger] pos[u] < members.len() && members@[pos[u] as int].0@
                    == schema@[u]@ by {
                if u < j {
                    assert(pos[u] == old_pos[u]);
                } else {
                    assert(pos[u] == found);
                }
            }
            assert(keys[found as int] == members@[found as int].0@);
            assert(keys.contains(names[j as int]));
        }
        j = j + 1;
    }
    proof {
        assert(!exists|w: int| first_missing(keys, names, w));
    }
    Ok(pos)
}

} // verus!
