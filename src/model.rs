use vstd::prelude::*;
use vstd::string::StringExecFns;
use crate::json::JsonValue;
use crate::fields::{
    DecodeError,
    Failure,
    fields_of,
    keys_of,
    names_of,
    locate_fields,
    lemma_fields_in_order,
    lemma_value_at,
    lemma_first_misplaced_exists,
    misplaced,
    first_misplaced,
    first_missing,
    same_name,
    value_at,
};
use crate::values::{
    text_of,
    count_of,
    texts_of,
    port_of,
    invalid,
    decode_text,
    decode_count,
    decode_port,
    decode_texts,
    encode_count,
    encode_port,
    encode_texts,
    member,
    is_text,
    encodes_texts,
    port_json,
    count_json,
    lemma_texts_round_trip,
    lemma_port_round_trip,
    lemma_count_round_trip,
};

verus! {

/// The state of an instance, as the registry names it.
#[derive(Debug, Clone, Copy, PartialEq, Eq, Structural)]
pub enum Status {
    Up,
    Down,
    Starting,
    OutOfService,
    Unknown,
}

pub open spec fn status_name(s: Status) -> Seq<char> {
    match s {
        Status::Up => "UP"@,
        Status::Down => "DOWN"@,
        Status::Starting => "STARTING"@,
        Status::OutOfService => "OUT_OF_SERVICE"@,
        Status::Unknown => "UNKNOWN"@,
    }
}

/// A status: one of the registry's literal names.
pub open spec fn status_of(v: JsonValue, field: Seq<char>) -> Result<Status, Failure> {
    match v {
        JsonValue::Str(s) => if s@ == "UP"@ {
            Ok(Status::Up)
        } else if s@ == "DOWN"@ {
            Ok(Status::Down)
        } else if s@ == "STARTING"@ {
            Ok(Status::Starting)
        } else if s@ == "OUT_OF_SERVICE"@ {
            Ok(Status::OutOfService)
        } else if s@ == "UNKNOWN"@ {
            Ok(Status::Unknown)
        } else {
            Err(Failure::InvalidValue(field))
        },
        _ => Err(Failure::InvalidValue(field)),
    }
}

impl Status {
    /// The literal name of this status.
    pub fn name(&self) -> (r: &'static str)
        ensures
            r@ == status_name(*self),
    {
        match self {
            Status::Up => "UP",
            Status::Down => "DOWN",
            Status::Starting => "STARTING",
            Status::OutOfService => "OUT_OF_SERVICE",
            Status::Unknown => "UNKNOWN",
        }
    }
}

/// A status is read back from its own name.
pub proof fn lemma_status_names(s: Status, t: String, f: Seq<char>)
    requires
        t@ == status_name(s),
    ensures
        status_of(JsonValue::Str(t), f) == Ok::<Status, Failure>(s),
{
    reveal_strlit("UP");
    reveal_strlit("DOWN");
    reveal_strlit("STARTING");
    reveal_strlit("OUT_OF_SERVICE");
    reveal_strlit("UNKNOWN");
    assert("UP"@.len() == 2);
    assert("DOWN"@.len() == 4);
    assert("STARTING"@.len() == 8);
    assert("OUT_OF_SERVICE"@.len() == 14);
    assert("UNKNOWN"@.len() == 7);
}

pub fn decode_status(v: &JsonValue, field: &str) -> (r: Result<Status, DecodeError>)
    ensures
        match r {
            Ok(x) => status_of(*v, field@) == Ok::<Status, Failure>(x),
            Err(e) => status_of(*v, field@) == Err::<Status, Failure>(e@),
        },
{
    match v {
        JsonValue::Str(s) => if same_name(s, "UP") {
            Ok(Status::Up)
        } else if same_name(s, "DOWN") {
            Ok(Status::Down)
        } else if same_name(s, "STARTING") {
            Ok(Status::Starting)
        } else if same_name(s, "OUT_OF_SERVICE") {
            Ok(Status::OutOfService)
        } else if same_name(s, "UNKNOWN") {
            Ok(Status::Unknown)
        } else {
            Err(invalid(field))
        },
        _ => Err(invalid(field)),
    }
}

/// The kind of data center an instance runs in.
#[derive(Debug, Clone, Copy, PartialEq, Eq, Structural)]
pub enum DcName {
    Amazon,
    MyOwn,
}

pub open spec fn dc_name_text(n: DcName) -> Seq<char> {
    match n {
        DcName::Amazon => "Amazon"@,
        DcName::MyOwn => "MyOwn"@,
    }
}

pub open spec fn dc_name_of(v: JsonValue, field: Seq<char>) -> Result<DcName, Failure> {
    match v {
        JsonValue::Str(s) => if s@ == "Amazon"@ {
            Ok(DcName::Amazon)
        } else if s@ == "MyOwn"@ {
            Ok(DcName::MyOwn)
        } else {
            Err(Failure::InvalidValue(field))
        },
        _ => Err(Failure::InvalidValue(field)),
    }
}

impl DcName {
    /// The literal name of this kind.
    pub fn name(&self) -> (r: &'static str)
        ensures
            r@ == dc_name_text(*self),
    {
        match self {
            DcName::Amazon => "Amazon",
            DcName::MyOwn => "MyOwn",
        }
    }
}

/// A data center kind is read back from its own name.
pub proof fn lemma_dc_names(n: DcName, t: String, f: Seq<char>)
    requires
        t@ == dc_name_text(n),
    ensures
        dc_name_of(JsonValue::Str(t), f) == Ok::<DcName, Failure>(n),
{
    reveal_strlit("Amazon");
    reveal_strlit("MyOwn");
    assert("Amazon"@.len() == 6);
    assert("MyOwn"@.len() == 5);
}

pub fn decode_dc_name(v: &JsonValue, field: &str) -> (r: Result<DcName, DecodeError>)
    ensures
        match r {
            Ok(x) => dc_name_of(*v, field@) == Ok::<DcName, Failure>(x),
            Err(e) => dc_name_of(*v, field@) == Err::<DcName, Failure>(e@),
        },
{
    match v {
        JsonValue::Str(s) => if same_name(s, "Amazon") {
            Ok(DcName::Amazon)
        } else if same_name(s, "MyOwn") {
            Ok(DcName::MyOwn)
        } else {
            Err(invalid(field))
        },
        _ => Err(invalid(field)),
    }
}

/// Facts about a host in Amazon's cloud, as its metadata service names them.
#[derive(Debug, Clone)]
pub struct AmazonMetaData {
    pub ami_launch_index: String,
    pub local_hostname: String,
    pub availability_zone: String,
    pub instance_id: String,
    pub public_ip4: String,
    pub public_hostname: String,
    pub ami_manifest_path: String,
    pub local_ip4: String,
    pub hostname: String,
    pub ami_id: String,
    pub instance_type: String,
}

impl View for AmazonMetaData {
    type V = Seq<Seq<char>>;

    /// The values in the order of the wire schema.
    open spec fn view(&self) -> Seq<Seq<char>> {
        seq![self.ami_launch_index@, self.local_hostname@, self.availability_zone@, self.instance_id@, self.public_ip4@, self.public_hostname@, self.ami_manifest_path@, self.local_ip4@, self.hostname@, self.ami_id@, self.instance_type@]
    }
}

/// The member names of Amazon metadata, in the order they are written.
pub open spec fn amazon_names() -> Seq<Seq<char>> {
    seq!["ami-launch-index"@, "local-hostname"@, "availability-zone"@, "instance-id"@, "public-ipv4"@, "public-hostname"@, "ami-manifest-path"@, "local-ipv4"@, "hostname"@, "ami-id"@, "instance-type"@]
}

fn amazon_schema() -> (r: Vec<&'static str>)
    ensures
        names_of(r@) == amazon_names(),
{
    let r = vec!["ami-launch-index", "local-hostname", "availability-zone", "instance-id", "public-ipv4", "public-hostname", "ami-manifest-path", "local-ipv4", "hostname", "ami-id", "instance-type"];
    assert(names_of(r@) =~= amazon_names());
    r
}

proof fn lemma_amazon_names_distinct()
    ensures
        amazon_names().no_duplicates(),
{
    reveal_strlit("ami-launch-index");
    reveal_strlit("local-hostname");
    reveal_strlit("availability-zone");
    reveal_strlit("instance-id");
    reveal_strlit("public-ipv4");
    reveal_strlit("public-hostname");
    reveal_strlit("ami-manifest-path");
    reveal_strlit("local-ipv4");
    reveal_strlit("hostname");
    reveal_strlit("ami-id");
    reveal_strlit("instance-type");
    assert("ami-launch-index"@.len() == 16 && "ami-launch-index"@[0] == 'a' && "ami-launch-index"@[1] == 'm');
    assert("local-hostname"@.len() == 14 && "local-hostname"@[0] == 'l' && "local-hostname"@[1] == 'o');
    assert("availability-zone"@.len() == 17 && "availability-zone"@[0] == 'a' && "availability-zone"@[1] == 'v');
    assert("instance-id"@.len() == 11 && "instance-id"@[0] == 'i' && "instance-id"@[1] == 'n');
    assert("public-ipv4"@.len() == 11 && "public-ipv4"@[0] == 'p' && "public-ipv4"@[1] == 'u');
    assert("public-hostname"@.len() == 15 && "public-hostname"@[0] == 'p' && "public-hostname"@[1] == 'u');
    assert("ami-manifest-path"@.len() == 17 && "ami-manifest-path"@[0] == 'a' && "ami-manifest-path"@[1] == 'm');
    assert("local-ipv4"@.len() == 10 && "local-ipv4"@[0] == 'l' && "local-ipv4"@[1] == 'o');
    assert("hostname"@.len() == 8 && "hostname"@[0] == 'h' && "hostname"@[1] == 'o');
    assert("ami-id"@.len() == 6 && "ami-id"@[0] == 'a' && "ami-id"@[1] == 'm');
    assert("instance-type"@.len() == 13 && "instance-type"@[0] == 'i' && "instance-type"@[1] == 'n');
}

pub open spec fn first_non_text(vals: Seq<JsonValue>, j: int) -> bool {
    &&& 0 <= j < vals.len()
    &&& !(vals[j] is Str)
    &&& forall|k: int| 0 <= k < j ==> vals[k] is Str
}

pub open spec fn first_non_text_at(vals: Seq<JsonValue>) -> int {
    choose|j: int| first_non_text(vals, j)
}

/// Amazon metadata: an object of the schema whose values are all strings;
/// else the first member, in the schema's order, that is not a string.
pub open spec fn amazon_of(v: JsonValue) -> Result<Seq<Seq<char>>, Failure> {
    match fields_of(v, amazon_names()) {
        Err(e) => Err(e),
        Ok(vals) => if exists|j: int| first_non_text(vals, j) {
            Err(Failure::InvalidValue(amazon_names()[first_non_text_at(vals)]))
        } else {
            Ok(Seq::new(vals.len(), |j: int| vals[j]->Str_0@))
        },
    }
}

/// `v` is the object for the Amazon metadata `x`, members in schema order.
pub open spec fn encodes_amazon(v: JsonValue, x: Seq<Seq<char>>) -> bool {
    &&& v is Object
    &&& keys_of(v->Object_0@) == amazon_names()
    &&& forall|k: int| 0 <= k < x.len() ==> is_text((#[trigger] v->Object_0@[k]).1, x[k])
    &&& x.len() == amazon_names().len()
}

pub proof fn lemma_amazon_round_trip(v: JsonValue, x: Seq<Seq<char>>)
    requires
        encodes_amazon(v, x),
    ensures
        amazon_of(v) == Ok::<Seq<Seq<char>>, Failure>(x),
{
    lemma_amazon_names_distinct();
    let m = v->Object_0;
    lemma_fields_in_order(m, amazon_names());
    let vals = m@.map_values(|p: (String, JsonValue)| p.1);
    assert forall|j: int| 0 <= j < vals.len() implies vals[j] is Str by {
        assert(is_text(m@[j].1, x[j]));
    }
    assert(Seq::new(vals.len(), |j: int| vals[j]->Str_0@) =~= x) by {
        assert forall|j: int| 0 <= j < vals.len() implies vals[j]->Str_0@ == x[j] by {
            assert(is_text(m@[j].1, x[j]));
        }
    }
}

impl AmazonMetaData {
    /// The JSON object for this metadata.
    pub fn to_json(&self) -> (r: JsonValue)
        ensures
            encodes_amazon(r, self@),
    {
        let mut m: Vec<(String, JsonValue)> = Vec::new();
        m.push(member("ami-launch-index", JsonValue::Str(self.ami_launch_index.clone())));
        m.push(member("local-hostname", JsonValue::Str(self.local_hostname.clone())));
        m.push(member("availability-zone", JsonValue::Str(self.availability_zone.clone())));
        m.push(member("instance-id", JsonValue::Str(self.instance_id.clone())));
        m.push(member("public-ipv4", JsonValue::Str(self.public_ip4.clone())));
        m.push(member("public-hostname", JsonValue::Str(self.public_hostname.clone())));
        m.push(member("ami-manifest-path", JsonValue::Str(self.ami_manifest_path.clone())));
        m.push(member("local-ipv4", JsonValue::Str(self.local_ip4.clone())));
        m.push(member("hostname", JsonValue::Str(self.hostname.clone())));
        m.push(member("ami-id", JsonValue::Str(self.ami_id.clone())));
        m.push(member("instance-type", JsonValue::Str(self.instance_type.clone())));
        assert(keys_of(m@) =~= amazon_names());
        JsonValue::Object(m)
    }

    /// Reads Amazon metadata from a JSON value.
    pub fn from_json(v: &JsonValue) -> (r: Result<AmazonMetaData, DecodeError>)
        ensures
            match r {
                Ok(x) => amazon_of(*v) == Ok::<Seq<Seq<char>>, Failure>(x@),
                Err(e) => amazon_of(*v) == Err::<Seq<Seq<char>>, Failure>(e@),
            },
    {
        match v {
            JsonValue::Object(m) => {
                let schema = amazon_schema();
                let pos = match locate_fields(m, &schema) {
                    Ok(p) => p,
                    Err(e) => return Err(e),
                };
                let ghost names = amazon_names();
                let ghost vals = Seq::new(names.len(), |j: int| value_at(m@, names[j]));
                proof {
                    assert forall|j: int| 0 <= j < names.len() implies vals[j] == m@[pos@[j] as int].1 by {
                        assert(pos[j] < m.len());
                        lemma_value_at(m@, names, pos@[j] as int);
                    }
                }
                assert(fields_of(*v, names) == Ok::<Seq<JsonValue>, Failure>(vals));
                let mut texts: Vec<String> = Vec::new();
                let mut j: usize = 0;
                while j < schema.len()
                    invariant
                        j <= schema.len(),
                        fields_of(*v, names) == Ok::<Seq<JsonValue>, Failure>(vals),
                        names == amazon_names(),
                        schema.len() == names.len(),
                        names_of(schema@) == names,
                        pos.len() == schema.len(),
                        forall|u: int| 0 <= u < pos.len() ==> #[trigger] pos[u] < m.len(),
                        forall|u: int| 0 <= u < names.len() ==> #[trigger] vals[u] == m@[pos@[u] as int].1,
                        vals.len() == names.len(),
                        texts.len() == j,
                        forall|u: int| 0 <= u < j ==> (#[trigger] vals[u]) is Str && texts@[u]@ == vals[u]->Str_0@,
                    decreases schema.len() - j,
                {
                    assert(pos[j as int] < m.len());
                    match &m[pos[j]].1 {
                        JsonValue::Str(s) => {
                            texts.push(s.clone());
                        },
                        _ => {
                            proof {
                                assert(!(vals[j as int] is Str));
                                assert(first_non_text(vals, j as int));
                                assert forall|w: int| first_non_text(vals, w) implies w == j by {
                                    if w < j {
                                        assert(vals[w] is Str);
                                    } else if w > j {
                                        assert(vals[j as int] is Str);
                                    }
                                }
                                assert(names[j as int] == schema@[j as int]@);
                                assert(exists|w: int| first_non_text(vals, w));
                                assert(first_non_text_at(vals) == j);
                                assert(amazon_of(*v) == Err::<Seq<Seq<char>>, Failure>(
                                    Failure::InvalidValue(names[j as int]),
                                ));
                            }
                            return Err(invalid(schema[j]));
                        },
                    }
                    j = j + 1;
                }
                assert(!exists|w: int| first_non_text(vals, w));
                let x = AmazonMetaData {
                    ami_launch_index: texts[0].clone(),
                    local_hostname: texts[1].clone(),
                    availability_zone: texts[2].clone(),
                    instance_id: texts[3].clone(),
                    public_ip4: texts[4].clone(),
                    public_hostname: texts[5].clone(),
                    ami_manifest_path: texts[6].clone(),
                    local_ip4: texts[7].clone(),
                    hostname: texts[8].clone(),
                    ami_id: texts[9].clone(),
                    instance_type: texts[10].clone(),
                };
                assert(x@ =~= Seq::new(vals.len(), |j: int| vals[j]->Str_0@));
                Ok(x)
            },
            _ => Err(DecodeError::NotAnObject),
        }
    }
}

/// Where an instance runs: the kind of data center and its metadata.
#[derive(Debug, Clone)]
pub struct DataCenterInfo {
    pub name: DcName,
    pub metadata: AmazonMetaData,
}

impl View for DataCenterInfo {
    type V = (DcName, Seq<Seq<char>>);

    open spec fn view(&self) -> (DcName, Seq<Seq<char>>) {
        (self.name, self.metadata@)
    }
}

/// The member names of data center information.
pub open spec fn dc_names() -> Seq<Seq<char>> {
    seq!["name"@, "metadata"@]
}

fn dc_schema() -> (r: Vec<&'static str>)
    ensures
        names_of(r@) == dc_names(),
{
    let r = vec!["name", "metadata"];
    assert(names_of(r@) =~= dc_names());
    r
}

proof fn lemma_dc_names_distinct()
    ensures
        dc_names().no_duplicates(),
{
    reveal_strlit("name");
    reveal_strlit("metadata");
    assert("name"@.len() == 4 && "name"@[0] == 'n' && "name"@[1] == 'a');
    assert("metadata"@.len() == 8 && "metadata"@[0] == 'm' && "metadata"@[1] == 'e');
}

/// Data center information: its kind's name, then its metadata.
pub open spec fn dc_of(v: JsonValue) -> Result<(DcName, Seq<Seq<char>>), Failure> {
    match fields_of(v, dc_names()) {
        Err(e) => Err(e),
        Ok(vals) => match dc_name_of(vals[0], "name"@) {
            Err(e) => Err(e),
            Ok(n) => match amazon_of(vals[1]) {
                Err(e) => Err(e),
                Ok(md) => Ok((n, md)),
            },
        },
    }
}

/// `v` is the object for the data center information `x`.
pub open spec fn encodes_dc(v: JsonValue, x: (DcName, Seq<Seq<char>>)) -> bool {
    &&& v is Object
    &&& keys_of(v->Object_0@) == dc_names()
    &&& is_text(v->Object_0@[0].1, dc_name_text(x.0))
    &&& encodes_amazon(v->Object_0@[1].1, x.1)
}

pub proof fn lemma_dc_round_trip(v: JsonValue, x: (DcName, Seq<Seq<char>>))
    requires
        encodes_dc(v, x),
    ensures
        dc_of(v) == Ok::<(DcName, Seq<Seq<char>>), Failure>(x),
{
    lemma_dc_names_distinct();
    let m = v->Object_0;
    lemma_fields_in_order(m, dc_names());
    lemma_dc_names(x.0, m@[0].1->Str_0, "name"@);
    lemma_amazon_round_trip(m@[1].1, x.1);
}

impl DataCenterInfo {
    /// The JSON object for this information.
    pub fn to_json(&self) -> (r: JsonValue)
        ensures
            encodes_dc(r, self@),
    {
        let mut m: Vec<(String, JsonValue)> = Vec::new();
        m.push(member("name", JsonValue::Str(String::from_str(self.name.name()))));
        m.push(member("metadata", self.metadata.to_json()));
        assert(keys_of(m@) =~= dc_names());
        JsonValue::Object(m)
    }

    /// Reads data center information from a JSON value.
    pub fn from_json(v: &JsonValue) -> (r: Result<DataCenterInfo, DecodeError>)
        ensures
            match r {
                Ok(x) => dc_of(*v) == Ok::<(DcName, Seq<Seq<char>>), Failure>(x@),
                Err(e) => dc_of(*v) == Err::<(DcName, Seq<Seq<char>>), Failure>(e@),
            },
    {
        match v {
            JsonValue::Object(m) => {
                let schema = dc_schema();
                let pos = match locate_fields(m, &schema) {
                    Ok(p) => p,
                    Err(e) => return Err(e),
                };
                proof {
                    assert(pos[0] < m.len() && pos[1] < m.len());
                    lemma_value_at(m@, dc_names(), pos@[0] as int);
                    lemma_value_at(m@, dc_names(), pos@[1] as int);
                }
                let name = match decode_dc_name(&m[pos[0]].1, "name") {
                    Ok(n) => n,
                    Err(e) => return Err(e),
                };
                let metadata = match AmazonMetaData::from_json(&m[pos[1]].1) {
                    Ok(md) => md,
                    Err(e) => return Err(e),
                };
                Ok(DataCenterInfo { name, metadata })
            },
            _ => Err(DecodeError::NotAnObject),
        }
    }
}

/// How long the registry keeps an instance that stops renewing its lease.
#[derive(Debug, Clone)]
pub struct LeaseInfo {
    pub eviction_duration_in_secs: Option<u32>,
}

/// The member names of lease information.
pub open spec fn lease_names() -> Seq<Seq<char>> {
    seq!["evictionDurationInSecs"@]
}

fn lease_schema() -> (r: Vec<&'static str>)
    ensures
        names_of(r@) == lease_names(),
{
    let r = vec!["evictionDurationInSecs"];
    assert(names_of(r@) =~= lease_names());
    r
}

/// Lease information: an object with its eviction duration.
pub open spec fn lease_of(v: JsonValue) -> Result<Option<u32>, Failure> {
    match fields_of(v, lease_names()) {
        Err(e) => Err(e),
        Ok(vals) => count_of(vals[0], "evictionDurationInSecs"@),
    }
}

/// Optional lease information: `null`, or lease information.
pub open spec fn lease_opt_of(v: JsonValue) -> Result<Option<Option<u32>>, Failure> {
    if v is Null {
        Ok(None)
    } else {
        match lease_of(v) {
            Err(e) => Err(e),
            Ok(c) => Ok(Some(c)),
        }
    }
}

pub open spec fn lease_view(l: Option<LeaseInfo>) -> Option<Option<u32>> {
    match l {
        Some(x) => Some(x.eviction_duration_in_secs),
        None => None,
    }
}

/// `v` is the JSON form of the optional lease information `x`.
pub open spec fn encodes_lease_opt(v: JsonValue, x: Option<Option<u32>>) -> bool {
    match x {
        None => v == JsonValue::Null,
        Some(c) => {
            &&& v is Object
            &&& keys_of(v->Object_0@) == lease_names()
            &&& v->Object_0@[0].1 == count_json(c)
        },
    }
}

pub proof fn lemma_lease_round_trip(v: JsonValue, x: Option<Option<u32>>)
    requires
        encodes_lease_opt(v, x),
    ensures
        lease_opt_of(v) == Ok::<Option<Option<u32>>, Failure>(x),
{
    if let Some(c) = x {
        let m = v->Object_0;
        lemma_fields_in_order(m, lease_names());
        lemma_count_round_trip(c, "evictionDurationInSecs"@);
    }
}

pub fn encode_lease(l: &Option<LeaseInfo>) -> (r: JsonValue)
    ensures
        encodes_lease_opt(r, lease_view(*l)),
{
    match l {
        None => JsonValue::Null,
        Some(x) => {
            let mut m: Vec<(String, JsonValue)> = Vec::new();
            m.push(member("evictionDurationInSecs", encode_count(x.eviction_duration_in_secs)));
            assert(keys_of(m@) =~= lease_names());
            JsonValue::Object(m)
        },
    }
}

pub fn decode_lease(v: &JsonValue) -> (r: Result<Option<LeaseInfo>, DecodeError>)
    ensures
        match r {
            Ok(x) => lease_opt_of(*v) == Ok::<Option<Option<u32>>, Failure>(lease_view(x)),
            Err(e) => lease_opt_of(*v) == Err::<Option<Option<u32>>, Failure>(e@),
        },
{
    match v {
        JsonValue::Null => Ok(None),
        JsonValue::Object(m) => {
            let schema = lease_schema();
            let pos = match locate_fields(m, &schema) {
                Ok(p) => p,
                Err(e) => return Err(e),
            };
            proof {
                assert(pos[0] < m.len());
                lemma_value_at(m@, lease_names(), pos@[0] as int);
            }
            match decode_count(&m[pos[0]].1, "evictionDurationInSecs") {
                Ok(c) => Ok(Some(LeaseInfo { eviction_duration_in_secs: c })),
                Err(e) => Err(e),
            }
        },
        _ => Err(DecodeError::NotAnObject),
    }
}

/// A service endpoint as the registry records it.
#[derive(Debug, Clone)]
pub struct Instance {
    pub host_name: String,
    pub app: String,
    pub ip_addr: String,
    pub vip_address: String,
    pub secure_vip_address: String,
    pub status: Status,
    pub port: Option<u16>,
    pub secure_port: Option<u16>,
    pub homepage_url: String,
    pub status_page_url: String,
    pub health_check_url: String,
    pub data_center_info: DataCenterInfo,
    pub lease_info: Option<LeaseInfo>,
    pub metadata: Vec<String>,
}

/// The mathematical form of an `Instance`.
pub struct InstanceView {
    pub host_name: Seq<char>,
    pub app: Seq<char>,
    pub ip_addr: Seq<char>,
    pub vip_address: Seq<char>,
    pub secure_vip_address: Seq<char>,
    pub status: Status,
    pub port: Option<u16>,
    pub secure_port: Option<u16>,
    pub homepage_url: Seq<char>,
    pub status_page_url: Seq<char>,
    pub health_check_url: Seq<char>,
    pub data_center_info: (DcName, Seq<Seq<char>>),
    pub lease_info: Option<Option<u32>>,
    pub metadata: Seq<Seq<char>>,
}

impl View for Instance {
    type V = InstanceView;

    open spec fn view(&self) -> InstanceView {
        InstanceView {
            host_name: self.host_name@,
            app: self.app@,
            ip_addr: self.ip_addr@,
            vip_address: self.vip_address@,
            secure_vip_address: self.secure_vip_address@,
            status: self.status,
            port: self.port,
            secure_port: self.secure_port,
            homepage_url: self.homepage_url@,
            status_page_url: self.status_page_url@,
            health_check_url: self.health_check_url@,
            data_center_info: self.data_center_info@,
            lease_info: lease_view(self.lease_info),
            metadata: self.metadata@.map_values(|s: String| s@),
        }
    }
}

/// The member names of an instance, in the order they are written.
pub open spec fn instance_names() -> Seq<Seq<char>> {
    seq!["hostName"@, "app"@, "ipAddr"@, "vipAddress"@, "secureVipAddress"@, "status"@, "port"@, "securePort"@, "homePageUrl"@, "statusPageUrl"@, "healthCheckUrl"@, "dataCenterInfo"@, "leaseInfo"@, "metadata"@]
}

/// The accepted member names of an instance, in the order they are written.
pub fn instance_schema() -> (r: Vec<&'static str>)
    ensures
        names_of(r@) == instance_names(),
{
    let r = vec!["hostName", "app", "ipAddr", "vipAddress", "secureVipAddress", "status", "port", "securePort", "homePageUrl", "statusPageUrl", "healthCheckUrl", "dataCenterInfo", "leaseInfo", "metadata"];
    assert(names_of(r@) =~= instance_names());
    r
}

proof fn lemma_instance_names_distinct()
    ensures
        instance_names().no_duplicates(),
{
    reveal_strlit("hostName");
    reveal_strlit("app");
    reveal_strlit("ipAddr");
    reveal_strlit("vipAddress");
    reveal_strlit("secureVipAddress");
    reveal_strlit("status");
    reveal_strlit("port");
    reveal_strlit("securePort");
    reveal_strlit("homePageUrl");
    reveal_strlit("statusPageUrl");
    reveal_strlit("healthCheckUrl");
    reveal_strlit("dataCenterInfo");
    reveal_strlit("leaseInfo");
    reveal_strlit("metadata");
    assert("hostName"@.len() == 8 && "hostName"@[0] == 'h' && "hostName"@[1] == 'o');
    assert("app"@.len() == 3 && "app"@[0] == 'a' && "app"@[1] == 'p');
    assert("ipAddr"@.len() == 6 && "ipAddr"@[0] == 'i' && "ipAddr"@[1] == 'p');
    assert("vipAddress"@.len() == 10 && "vipAddress"@[0] == 'v' && "vipAddress"@[1] == 'i');
    assert("secureVipAddress"@.len() == 16 && "secureVipAddress"@[0] == 's' && "secureVipAddress"@[1] == 'e');
    assert("status"@.len() == 6 && "status"@[0] == 's' && "status"@[1] == 't');
    assert("port"@.len() == 4 && "port"@[0] == 'p' && "port"@[1] == 'o');
    assert("securePort"@.len() == 10 && "securePort"@[0] == 's' && "securePort"@[1] == 'e');
    assert("homePageUrl"@.len() == 11 && "homePageUrl"@[0] == 'h' && "homePageUrl"@[1] == 'o');
    assert("statusPageUrl"@.len() == 13 && "statusPageUrl"@[0] == 's' && "statusPageUrl"@[1] == 't');
    assert("healthCheckUrl"@.len() == 14 && "healthCheckUrl"@[0] == 'h' && "healthCheckUrl"@[1] == 'e');
    assert("dataCenterInfo"@.len() == 14 && "dataCenterInfo"@[0] == 'd' && "dataCenterInfo"@[1] == 'a');
    assert("leaseInfo"@.len() == 9 && "leaseInfo"@[0] == 'l' && "leaseInfo"@[1] == 'e');
    assert("metadata"@.len() == 8 && "metadata"@[0] == 'm' && "metadata"@[1] == 'e');
}

/// An instance from the values of its members, in schema order: the first
/// member that cannot be read decides the error.
pub open spec fn instance_from(vals: Seq<JsonValue>) -> Result<InstanceView, Failure> {
    if text_of(vals[0], "hostName"@) is Err {
        Err(text_of(vals[0], "hostName"@)->Err_0)
    } else if text_of(vals[1], "app"@) is Err {
        Err(text_of(vals[1], "app"@)->Err_0)
    } else if text_of(vals[2], "ipAddr"@) is Err {
        Err(text_of(vals[2], "ipAddr"@)->Err_0)
    } else if text_of(vals[3], "vipAddress"@) is Err {
        Err(text_of(vals[3], "vipAddress"@)->Err_0)
    } else if text_of(vals[4], "secureVipAddress"@) is Err {
        Err(text_of(vals[4], "secureVipAddress"@)->Err_0)
    } else if status_of(vals[5], "status"@) is Err {
        Err(status_of(vals[5], "status"@)->Err_0)
    } else if port_of(vals[6], "port"@) is Err {
        Err(port_of(vals[6], "port"@)->Err_0)
    } else if port_of(vals[7], "securePort"@) is Err {
        Err(port_of(vals[7], "securePort"@)->Err_0)
    } else if text_of(vals[8], "homePageUrl"@) is Err {
        Err(text_of(vals[8], "homePageUrl"@)->Err_0)
    } else if text_of(vals[9], "statusPageUrl"@) is Err {
        Err(text_of(vals[9], "statusPageUrl"@)->Err_0)
    } else if text_of(vals[10], "healthCheckUrl"@) is Err {
        Err(text_of(vals[10], "healthCheckUrl"@)->Err_0)
    } else if dc_of(vals[11]) is Err {
        Err(dc_of(vals[11])->Err_0)
    } else if lease_opt_of(vals[12]) is Err {
        Err(lease_opt_of(vals[12])->Err_0)
    } else if texts_of(vals[13], "metadata"@) is Err {
        Err(texts_of(vals[13], "metadata"@)->Err_0)
    } else {
        Ok(InstanceView {
            host_name: text_of(vals[0], "hostName"@)->Ok_0,
            app: text_of(vals[1], "app"@)->Ok_0,
            ip_addr: text_of(vals[2], "ipAddr"@)->Ok_0,
            vip_address: text_of(vals[3], "vipAddress"@)->Ok_0,
            secure_vip_address: text_of(vals[4], "secureVipAddress"@)->Ok_0,
            status: status_of(vals[5], "status"@)->Ok_0,
            port: port_of(vals[6], "port"@)->Ok_0,
            secure_port: port_of(vals[7], "securePort"@)->Ok_0,
            homepage_url: text_of(vals[8], "homePageUrl"@)->Ok_0,
            status_page_url: text_of(vals[9], "statusPageUrl"@)->Ok_0,
            health_check_url: text_of(vals[10], "healthCheckUrl"@)->Ok_0,
            data_center_info: dc_of(vals[11])->Ok_0,
            lease_info: lease_opt_of(vals[12])->Ok_0,
            metadata: texts_of(vals[13], "metadata"@)->Ok_0,
        })
    }
}

/// An instance from a JSON value: an object of the instance schema whose
/// members can each be read.
pub open spec fn instance_of(v: JsonValue) -> Result<InstanceView, Failure> {
    match fields_of(v, instance_names()) {
        Err(e) => Err(e),
        Ok(vals) => instance_from(vals),
    }
}

/// `v` is the object for the instance `x`: the members of the schema in its
/// order, each holding the JSON form of its field.
pub open spec fn encodes_instance(v: JsonValue, x: InstanceView) -> bool {
    &&& v is Object
    &&& keys_of(v->Object_0@) == instance_names()
    &&& is_text(v->Object_0@[0].1, x.host_name)
    &&& is_text(v->Object_0@[1].1, x.app)
    &&& is_text(v->Object_0@[2].1, x.ip_addr)
    &&& is_text(v->Object_0@[3].1, x.vip_address)
    &&& is_text(v->Object_0@[4].1, x.secure_vip_address)
    &&& is_text(v->Object_0@[5].1, status_name(x.status))
    &&& v->Object_0@[6].1 == port_json(x.port)
    &&& v->Object_0@[7].1 == port_json(x.secure_port)
    &&& is_text(v->Object_0@[8].1, x.homepage_url)
    &&& is_text(v->Object_0@[9].1, x.status_page_url)
    &&& is_text(v->Object_0@[10].1, x.health_check_url)
    &&& encodes_dc(v->Object_0@[11].1, x.data_center_info)
    &&& encodes_lease_opt(v->Object_0@[12].1, x.lease_info)
    &&& encodes_texts(v->Object_0@[13].1, x.metadata)
}

/// Decoding the encoding of an instance gives the instance back.
pub proof fn lemma_instance_round_trip(v: JsonValue, x: InstanceView)
    requires
        encodes_instance(v, x),
    ensures
        instance_of(v) == Ok::<InstanceView, Failure>(x),
{
    lemma_instance_names_distinct();
    let m = v->Object_0;
    lemma_fields_in_order(m, instance_names());
    lemma_status_names(x.status, m@[5].1->Str_0, "status"@);
    lemma_port_round_trip(x.port, "port"@);
    lemma_port_round_trip(x.secure_port, "securePort"@);
    lemma_dc_round_trip(m@[11].1, x.data_center_info);
    lemma_lease_round_trip(m@[12].1, x.lease_info);
    lemma_texts_round_trip(m@[13].1, x.metadata, "metadata"@);
}

/// An object that holds, in any order and each once, every member of the
/// instance schema but one, and nothing else, fails to decode, and the error
/// names the absent member.
pub proof fn lemma_missing_member(v: JsonValue, k: int)
    requires
        v is Object,
        0 <= k < instance_names().len(),
        keys_of(v->Object_0@).no_duplicates(),
        forall|i: int|
            0 <= i < v->Object_0.len() ==> instance_names().contains(
                #[trigger] keys_of(v->Object_0@)[i],
            ) && keys_of(v->Object_0@)[i] != instance_names()[k],
        forall|j: int|
            0 <= j < instance_names().len() && j != k ==> keys_of(v->Object_0@).contains(
                #[trigger] instance_names()[j],
            ),
    ensures
        instance_of(v) == Err::<InstanceView, Failure>(Failure::MissingField(instance_names()[k])),
{
    let names = instance_names();
    let keys = keys_of(v->Object_0@);
    assert forall|i: int| 0 <= i < keys.len() implies !misplaced(keys, names, i) by {
        assert(names.contains(keys[i]));
        if keys.take(i).contains(keys[i]) {
            let u = choose|u: int| 0 <= u < i && keys.take(i)[u] == keys[i];
            assert(keys[u] == keys[i]);
        }
    }
    assert(!exists|i: int| first_misplaced(keys, names, i));
    assert(!keys.contains(names[k])) by {
        if keys.contains(names[k]) {
            let u = choose|u: int| 0 <= u < keys.len() && keys[u] == names[k];
            assert(keys[u] != names[k]);
        }
    }
    assert(first_missing(keys, names, k));
    assert forall|w: int| first_missing(keys, names, w) implies w == k by {
        if w < k {
            assert(keys.contains(names[w]));
        } else if w > k {
            assert(!keys.contains(names[k]));
        }
    }
}

/// The name at `f` occurred before, and no earlier name did.
pub open spec fn first_repeat(keys: Seq<Seq<char>>, f: int) -> bool {
    &&& 0 <= f < keys.len()
    &&& keys.take(f).contains(keys[f])
    &&& forall|g: int| 0 <= g < f ==> !(#[trigger] keys.take(g)).contains(keys[g])
}

/// An object whose member names all belong to the instance schema, one of
/// them repeated, fails to decode, and the error names the first member
/// whose name occurred before it.
pub proof fn lemma_repeated_member(v: JsonValue, i: int, j: int)
    requires
        v is Object,
        0 <= i < j < v->Object_0.len(),
        keys_of(v->Object_0@)[i] == keys_of(v->Object_0@)[j],
        forall|k: int|
            0 <= k < v->Object_0.len() ==> instance_names().contains(#[trigger] keys_of(v->Object_0@)[k]),
    ensures
        exists|f: int|
            #[trigger] first_repeat(keys_of(v->Object_0@), f) && instance_of(v) == Err::<
                InstanceView,
                Failure,
            >(Failure::DuplicateField(keys_of(v->Object_0@)[f])),
{
    let names = instance_names();
    let keys = keys_of(v->Object_0@);
    assert(keys.take(j)[i] == keys[j]);
    assert(misplaced(keys, names, j));
    lemma_first_misplaced_exists(keys, names, j);
    let f = choose|f: int| first_misplaced(keys, names, f);
    assert(names.contains(keys[f]));
    assert forall|g: int| 0 <= g < f implies !(#[trigger] keys.take(g)).contains(keys[g]) by {
        assert(!misplaced(keys, names, g));
    }
    assert(first_repeat(keys, f));
}

/// An object that holds a member name outside the instance schema, and
/// repeats no name, fails to decode; the error names a member outside the
/// schema and lists the schema's names.
pub proof fn lemma_unknown_member(v: JsonValue, i: int)
    requires
        v is Object,
        0 <= i < v->Object_0.len(),
        !instance_names().contains(keys_of(v->Object_0@)[i]),
        keys_of(v->Object_0@).no_duplicates(),
    ensures
        instance_of(v) is Err,
        instance_of(v)->Err_0 is UnknownField,
        keys_of(v->Object_0@).contains(instance_of(v)->Err_0->UnknownField_0),
        !instance_names().contains(instance_of(v)->Err_0->UnknownField_0),
        instance_of(v)->Err_0->UnknownField_1 == instance_names(),
{
    let names = instance_names();
    let keys = keys_of(v->Object_0@);
    assert(misplaced(keys, names, i));
    lemma_first_misplaced_exists(keys, names, i);
    let f = choose|f: int| first_misplaced(keys, names, f);
    if names.contains(keys[f]) {
        let a = choose|a: int| 0 <= a < f && keys.take(f)[a] == keys[f];
        assert(keys[a] == keys[f]);
    }
}

impl Instance {
    /// The JSON object for this instance, members in schema order.
    pub fn to_json(&self) -> (r: JsonValue)
        ensures
            encodes_instance(r, self@),
    {
        let mut m: Vec<(String, JsonValue)> = Vec::new();
        m.push(member("hostName", JsonValue::Str(self.host_name.clone())));
        m.push(member("app", JsonValue::Str(self.app.clone())));
        m.push(member("ipAddr", JsonValue::Str(self.ip_addr.clone())));
        m.push(member("vipAddress", JsonValue::Str(self.vip_address.clone())));
        m.push(member("secureVipAddress", JsonValue::Str(self.secure_vip_address.clone())));
        m.push(member("status", JsonValue::Str(String::from_str(self.status.name()))));
        m.push(member("port", encode_port(self.port)));
        m.push(member("securePort", encode_port(self.secure_port)));
        m.push(member("homePageUrl", JsonValue::Str(self.homepage_url.clone())));
        m.push(member("statusPageUrl", JsonValue::Str(self.status_page_url.clone())));
        m.push(member("healthCheckUrl", JsonValue::Str(self.health_check_url.clone())));
        m.push(member("dataCenterInfo", self.data_center_info.to_json()));
        m.push(member("leaseInfo", encode_lease(&self.lease_info)));
        m.push(member("metadata", encode_texts(&self.metadata)));
        assert(keys_of(m@) =~= instance_names());
        JsonValue::Object(m)
    }

    /// Reads an instance from a JSON value.
    pub fn from_json(v: &JsonValue) -> (r: Result<Instance, DecodeError>)
        ensures
            match r {
                Ok(x) => instance_of(*v) == Ok::<InstanceView, Failure>(x@),
                Err(e) => instance_of(*v) == Err::<InstanceView, Failure>(e@),
            },
    {
        match v {
            JsonValue::Object(m) => {
                let schema = instance_schema();
                let pos = match locate_fields(m, &schema) {
                    Ok(p) => p,
                    Err(e) => return Err(e),
                };
                proof {
                    assert(pos[0] < m.len());
                    lemma_value_at(m@, instance_names(), pos@[0] as int);
                    assert(pos[1] < m.len());
                    lemma_value_at(m@, instance_names(), pos@[1] as int);
                    assert(pos[2] < m.len());
                    lemma_value_at(m@, instance_names(), pos@[2] as int);
                    assert(pos[3] < m.len());
                    lemma_value_at(m@, instance_names(), pos@[3] as int);
                    assert(pos[4] < m.len());
                    lemma_value_at(m@, instance_names(), pos@[4] as int);
                    assert(pos[5] < m.len());
                    lemma_value_at(m@, instance_names(), pos@[5] as int);
                    assert(pos[6] < m.len());
                    lemma_value_at(m@, instance_names(), pos@[6] as int);
                    assert(pos[7] < m.len());
                    lemma_value_at(m@, instance_names(), pos@[7] as int);
                    assert(pos[8] < m.len());
                    lemma_value_at(m@, instance_names(), pos@[8] as int);
                    assert(pos[9] < m.len());
                    lemma_value_at(m@, instance_names(), pos@[9] as int);
                    assert(pos[10] < m.len());
                    lemma_value_at(m@, instance_names(), pos@[10] as int);
                    assert(pos[11] < m.len());
                    lemma_value_at(m@, instance_names(), pos@[11] as int);
                    assert(pos[12] < m.len());
                    lemma_value_at(m@, instance_names(), pos@[12] as int);
                    assert(pos[13] < m.len());
                    lemma_value_at(m@, instance_names(), pos@[13] as int);
                }
                let host_name = match decode_text(&m[pos[0]].1, "hostName") {
                    Ok(x) => x,
                    Err(e) => return Err(e),
                };
                let app = match decode_text(&m[pos[1]].1, "app") {
                    Ok(x) => x,
                    Err(e) => return Err(e),
                };
                let ip_addr = match decode_text(&m[pos[2]].1, "ipAddr") {
                    Ok(x) => x,
                    Err(e) => return Err(e),
                };
                let vip_address = match decode_text(&m[pos[3]].1, "vipAddress") {
                    Ok(x) => x,
                    Err(e) => return Err(e),
                };
                let secure_vip_address = match decode_text(&m[pos[4]].1, "secureVipAddress") {
                    Ok(x) => x,
                    Err(e) => return Err(e),
                };
                let status = match decode_status(&m[pos[5]].1, "status") {
                    Ok(x) => x,
                    Err(e) => return Err(e),
                };
                let port = match decode_port(&m[pos[6]].1, "port") {
                    Ok(x) => x,
                    Err(e) => return Err(e),
                };
                let secure_port = match decode_port(&m[pos[7]].1, "securePort") {
                    Ok(x) => x,
                    Err(e) => return Err(e),
                };
                let homepage_url = match decode_text(&m[pos[8]].1, "homePageUrl") {
                    Ok(x) => x,
                    Err(e) => return Err(e),
                };
                let status_page_url = match decode_text(&m[pos[9]].1, "statusPageUrl") {
                    Ok(x) => x,
                    Err(e) => return Err(e),
                };
                let health_check_url = match decode_text(&m[pos[10]].1, "healthCheckUrl") {
                    Ok(x) => x,
                    Err(e) => return Err(e),
                };
                let data_center_info = match DataCenterInfo::from_json(&m[pos[11]].1) {
                    Ok(x) => x,
                    Err(e) => return Err(e),
                };
                let lease_info = match decode_lease(&m[pos[12]].1) {
                    Ok(x) => x,
                    Err(e) => return Err(e),
                };
                let metadata = match decode_texts(&m[pos[13]].1, "metadata") {
                    Ok(x) => x,
                    Err(e) => return Err(e),
                };
                Ok(Instance {
                    host_name,
                    app,
                    ip_addr,
                    vip_address,
                    secure_vip_address,
                    status,
                    port,
                    secure_port,
                    homepage_url,
                    status_page_url,
                    health_check_url,
                    data_center_info,
                    lease_info,
                    metadata,
                })
            },
            _ => Err(DecodeError::NotAnObject),
        }
    }
}

/// The body of a registration: an instance under the key `instance`.
#[derive(Debug, Clone)]
pub struct RegisterRequest {
    pub instance: Instance,
}

/// The member names of a registration.
pub open spec fn register_names() -> Seq<Seq<char>> {
    seq!["instance"@]
}

/// `v` is the object for a registration of `x`.
pub open spec fn encodes_register(v: JsonValue, x: InstanceView) -> bool {
    &&& v is Object
    &&& keys_of(v->Object_0@) == register_names()
    &&& encodes_instance(v->Object_0@[0].1, x)
}

impl RegisterRequest {
    pub fn new(instance: Instance) -> (r: RegisterRequest)
        ensures
            r.instance == instance,
    {
        RegisterRequest { instance }
    }

    /// The JSON object for this registration.
    pub fn to_json(&self) -> (r: JsonValue)
        ensures
            encodes_register(r, self.instance@),
    {
        let mut m: Vec<(String, JsonValue)> = Vec::new();
        m.push(member("instance", self.instance.to_json()));
        assert(keys_of(m@) =~= register_names());
        JsonValue::Object(m)
    }
}

} // verus!
