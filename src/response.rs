use vstd::prelude::*;
use crate::json::JsonValue;
use crate::fields::{DecodeError, Failure, fields_of, names_of, locate_fields, lemma_value_at};
use crate::values::{text_of, decode_text, invalid};
use crate::model::{Instance, InstanceView, instance_of};

verus! {

/// The instances of the first `n` items of an array; the first item that is
/// no instance decides the error.
pub open spec fn instances_upto(items: Seq<JsonValue>, n: int) -> Result<Seq<InstanceView>, Failure>
    decreases n,
{
    if n <= 0 {
        Ok(Seq::empty())
    } else {
        match instances_upto(items, n - 1) {
            Err(e) => Err(e),
            Ok(s) => match instance_of(items[n - 1]) {
                Err(e) => Err(e),
                Ok(x) => Ok(s.push(x)),
            },
        }
    }
}

/// A list of instances: a JSON array of instance objects.
pub open spec fn instances_of(v: JsonValue, field: Seq<char>) -> Result<Seq<InstanceView>, Failure> {
    match v {
        JsonValue::Array(items) => instances_upto(items@, items.len() as int),
        _ => Err(Failure::InvalidValue(field)),
    }
}

proof fn lemma_instances_err_stays(items: Seq<JsonValue>, i: int, n: int)
    requires
        0 <= i <= n,
        instances_upto(items, i) is Err,
    ensures
        instances_upto(items, n) == instances_upto(items, i),
    decreases n - i,
{
    if n > i {
        lemma_instances_err_stays(items, i, n - 1);
    }
}

proof fn lemma_applications_err_stays(items: Seq<JsonValue>, i: int, n: int)
    requires
        0 <= i <= n,
        applications_upto(items, i) is Err,
    ensures
        applications_upto(items, n) == applications_upto(items, i),
    decreases n - i,
{
    if n > i {
        lemma_applications_err_stays(items, i, n - 1);
    }
}

pub open spec fn instances_view(v: Seq<Instance>) -> Seq<InstanceView> {
    v.map_values(|x: Instance| x@)
}

pub fn decode_instances(v: &JsonValue, field: &str) -> (r: Result<Vec<Instance>, DecodeError>)
    ensures
        match r {
            Ok(x) => instances_of(*v, field@) == Ok::<Seq<InstanceView>, Failure>(instances_view(x@)),
            Err(e) => instances_of(*v, field@) == Err::<Seq<InstanceView>, Failure>(e@),
        },
{
    match v {
        JsonValue::Array(items) => {
            let mut out: Vec<Instance> = Vec::new();
            assert(instances_view(out@) =~= Seq::empty());
            let mut i: usize = 0;
            while i < items.len()
                invariant
                    i <= items.len(),
                    *v == JsonValue::Array(*items),
                    instances_upto(items@, i as int) == Ok::<Seq<InstanceView>, Failure>(
                        instances_view(out@),
                    ),
                decreases items.len() - i,
            {
                match Instance::from_json(&items[i]) {
                    Ok(x) => {
                        let ghost before = out@;
                        out.push(x);
                        assert(instances_view(out@) =~= instances_view(before).push(x@));
                    },
                    Err(e) => {
                        proof {
                            lemma_instances_err_stays(items@, i + 1, items.len() as int);
                        }
                        return Err(e);
                    },
                }
                i = i + 1;
            }
            Ok(out)
        },
        _ => Err(invalid(field)),
    }
}

/// One application and its registered instances.
#[derive(Debug, Clone)]
pub struct Application {
    pub name: String,
    pub instance: Vec<Instance>,
}

/// The mathematical form of an `Application`.
pub struct ApplicationView {
    pub name: Seq<char>,
    pub instance: Seq<InstanceView>,
}

impl View for Application {
    type V = ApplicationView;

    open spec fn view(&self) -> ApplicationView {
        ApplicationView { name: self.name@, instance: instances_view(self.instance@) }
    }
}

pub open spec fn application_names() -> Seq<Seq<char>> {
    seq!["name"@, "instance"@]
}

/// An application: its name and the array of its instances.
pub open spec fn application_of(v: JsonValue) -> Result<ApplicationView, Failure> {
    match fields_of(v, application_names()) {
        Err(e) => Err(e),
        Ok(vals) => match text_of(vals[0], "name"@) {
            Err(e) => Err(e),
            Ok(n) => match instances_of(vals[1], "instance"@) {
                Err(e) => Err(e),
                Ok(s) => Ok(ApplicationView { name: n, instance: s }),
            },
        },
    }
}

impl Application {
    /// Reads an application from a JSON value.
    pub fn from_json(v: &JsonValue) -> (r: Result<Application, DecodeError>)
        ensures
            match r {
                Ok(x) => application_of(*v) == Ok::<ApplicationView, Failure>(x@),
                Err(e) => application_of(*v) == Err::<ApplicationView, Failure>(e@),
            },
    {
        match v {
            JsonValue::Object(m) => {
                let schema = vec!["name", "instance"];
                assert(names_of(schema@) =~= application_names());
                let pos = match locate_fields(m, &schema) {
                    Ok(p) => p,
                    Err(e) => return Err(e),
                };
                proof {
                    assert(pos[0] < m.len() && pos[1] < m.len());
                    lemma_value_at(m@, application_names(), pos@[0] as int);
                    lemma_value_at(m@, application_names(), pos@[1] as int);
                }
                let name = match decode_text(&m[pos[0]].1, "name") {
                    Ok(x) => x,
                    Err(e) => return Err(e),
                };
                let instance = match decode_instances(&m[pos[1]].1, "instance") {
                    Ok(x) => x,
                    Err(e) => return Err(e),
                };
                Ok(Application { name, instance })
            },
            _ => Err(DecodeError::NotAnObject),
        }
    }
}

/// The answer to a query for one application: it stands under the key
/// `application`.
#[derive(Debug, Clone)]
pub struct ApplicationResponse {
    pub application: Application,
}

/// An answer for one application: an object with the application.
pub open spec fn application_response_of(v: JsonValue) -> Result<ApplicationView, Failure> {
    match fields_of(v, seq!["application"@]) {
        Err(e) => Err(e),
        Ok(vals) => application_of(vals[0]),
    }
}

impl ApplicationResponse {
    /// Reads the answer for one application from a JSON value.
    pub fn from_json(v: &JsonValue) -> (r: Result<ApplicationResponse, DecodeError>)
        ensures
            match r {
                Ok(x) => application_response_of(*v) == Ok::<ApplicationView, Failure>(x.application@),
                Err(e) => application_response_of(*v) == Err::<ApplicationView, Failure>(e@),
            },
    {
        match v {
            JsonValue::Object(m) => {
                let schema = vec!["application"];
                assert(names_of(schema@) =~= seq!["application"@]);
                let pos = match locate_fields(m, &schema) {
                    Ok(p) => p,
                    Err(e) => return Err(e),
                };
                proof {
                    assert(pos[0] < m.len());
                    lemma_value_at(m@, seq!["application"@], pos@[0] as int);
                }
                match Application::from_json(&m[pos[0]].1) {
                    Ok(application) => Ok(ApplicationResponse { application }),
                    Err(e) => Err(e),
                }
            },
            _ => Err(DecodeError::NotAnObject),
        }
    }
}

/// The applications of the first `n` items of an array; the first item that
/// is no application decides the error.
pub open spec fn applications_upto(items: Seq<JsonValue>, n: int) -> Result<Seq<ApplicationView>, Failure>
    decreases n,
{
    if n <= 0 {
        Ok(Seq::empty())
    } else {
        match applications_upto(items, n - 1) {
            Err(e) => Err(e),
            Ok(s) => match application_of(items[n - 1]) {
                Err(e) => Err(e),
                Ok(x) => Ok(s.push(x)),
            },
        }
    }
}

pub open spec fn applications_view(v: Seq<Application>) -> Seq<ApplicationView> {
    v.map_values(|x: Application| x@)
}

/// Every application the registry knows, with the registry's version marks.
#[derive(Debug, Clone)]
pub struct Applications {
    pub versions_delta: String,
    pub apps_hashcode: String,
    pub application: Vec<Application>,
}

/// The mathematical form of `Applications`.
pub struct ApplicationsView {
    pub versions_delta: Seq<char>,
    pub apps_hashcode: Seq<char>,
    pub application: Seq<ApplicationView>,
}

impl View for Applications {
    type V = ApplicationsView;

    open spec fn view(&self) -> ApplicationsView {
        ApplicationsView {
            versions_delta: self.versions_delta@,
            apps_hashcode: self.apps_hashcode@,
            application: applications_view(self.application@),
        }
    }
}

pub open spec fn applications_names() -> Seq<Seq<char>> {
    seq!["versions__delta"@, "apps__hashcode"@, "application"@]
}

/// The list of all applications: the two version marks and the array of
/// applications.
pub open spec fn applications_of(v: JsonValue) -> Result<ApplicationsView, Failure> {
    match fields_of(v, applications_names()) {
        Err(e) => Err(e),
        Ok(vals) => match text_of(vals[0], "versions__delta"@) {
            Err(e) => Err(e),
            Ok(d) => match text_of(vals[1], "apps__hashcode"@) {
                Err(e) => Err(e),
                Ok(h) => match vals[2] {
                    JsonValue::Array(items) => match applications_upto(items@, items.len() as int) {
                        Err(e) => Err(e),
                        Ok(s) => Ok(ApplicationsView { versions_delta: d, apps_hashcode: h, application: s }),
                    },
                    _ => Err(Failure::InvalidValue("application"@)),
                },
            },
        },
    }
}

/// The answer to a query for all applications: an object with them under the
/// key `applications`.
pub open spec fn applications_response_of(v: JsonValue) -> Result<ApplicationsView, Failure> {
    match fields_of(v, seq!["applications"@]) {
        Err(e) => Err(e),
        Ok(vals) => applications_of(vals[0]),
    }
}

fn decode_applications(v: &JsonValue, field: &str) -> (r: Result<Vec<Application>, DecodeError>)
    requires
        field@ == "application"@,
    ensures
        match r {
            Ok(x) => v is Array && applications_upto(v->Array_0@, v->Array_0.len() as int) == Ok::<
                Seq<ApplicationView>,
                Failure,
            >(applications_view(x@)),
            Err(e) => if v is Array {
                applications_upto(v->Array_0@, v->Array_0.len() as int) == Err::<Seq<ApplicationView>, Failure>(e@)
            } else {
                e@ == Failure::InvalidValue(field@)
            },
        },
{
    match v {
        JsonValue::Array(items) => {
            let mut out: Vec<Application> = Vec::new();
            assert(applications_view(out@) =~= Seq::empty());
            let mut i: usize = 0;
            while i < items.len()
                invariant
                    i <= items.len(),
                    *v == JsonValue::Array(*items),
                    applications_upto(items@, i as int) == Ok::<Seq<ApplicationView>, Failure>(
                        applications_view(out@),
                    ),
                decreases items.len() - i,
            {
                match Application::from_json(&items[i]) {
                    Ok(x) => {
                        let ghost before = out@;
                        out.push(x);
                        assert(applications_view(out@) =~= applications_view(before).push(x@));
                    },
                    Err(e) => {
                        proof {
                            lemma_applications_err_stays(items@, i + 1, items.len() as int);
                        }
                        return Err(e);
                    },
                }
                i = i + 1;
            }
            Ok(out)
        },
        _ => Err(invalid(field)),
    }
}

impl Applications {
    /// Reads the list of all applications from a JSON value.
    pub fn from_json(v: &JsonValue) -> (r: Result<Applications, DecodeError>)
        ensures
            match r {
                Ok(x) => applications_of(*v) == Ok::<ApplicationsView, Failure>(x@),
                Err(e) => applications_of(*v) == Err::<ApplicationsView, Failure>(e@),
            },
    {
        match v {
            JsonValue::Object(m) => {
                let schema = vec!["versions__delta", "apps__hashcode", "application"];
                assert(names_of(schema@) =~= applications_names());
                let pos = match locate_fields(m, &schema) {
                    Ok(p) => p,
                    Err(e) => return Err(e),
                };
                proof {
                    assert(pos[0] < m.len() && pos[1] < m.len() && pos[2] < m.len());
                    lemma_value_at(m@, applications_names(), pos@[0] as int);
                    lemma_value_at(m@, applications_names(), pos@[1] as int);
                    lemma_value_at(m@, applications_names(), pos@[2] as int);
                }
                let versions_delta = match decode_text(&m[pos[0]].1, "versions__delta") {
                    Ok(x) => x,
                    Err(e) => return Err(e),
                };
                let apps_hashcode = match decode_text(&m[pos[1]].1, "apps__hashcode") {
                    Ok(x) => x,
                    Err(e) => return Err(e),
                };
                let application = match decode_applications(&m[pos[2]].1, "application") {
                    Ok(x) => x,
                    Err(e) => return Err(e),
                };
                Ok(Applications { versions_delta, apps_hashcode, application })
            },
            _ => Err(DecodeError::NotAnObject),
        }
    }
}

/// The answer to a query for all applications.
#[derive(Debug, Clone)]
pub struct ApplicationsResponse {
    pub applications: Applications,
}

impl ApplicationsResponse {
    /// Reads the answer for all applications from a JSON value.
    pub fn from_json(v: &JsonValue) -> (r: Result<ApplicationsResponse, DecodeError>)
        ensures
            match r {
                Ok(x) => applications_response_of(*v) == Ok::<ApplicationsView, Failure>(x.applications@),
                Err(e) => applications_response_of(*v) == Err::<ApplicationsView, Failure>(e@),
            },
    {
        match v {
            JsonValue::Object(m) => {
                let schema = vec!["applications"];
                assert(names_of(schema@) =~= seq!["applications"@]);
                let pos = match locate_fields(m, &schema) {
                    Ok(p) => p,
                    Err(e) => return Err(e),
                };
                proof {
                    assert(pos[0] < m.len());
                    lemma_value_at(m@, seq!["applications"@], pos@[0] as int);
                }
                match Applications::from_json(&m[pos[0]].1) {
                    Ok(applications) => Ok(ApplicationsResponse { applications }),
                    Err(e) => Err(e),
                }
            },
            _ => Err(DecodeError::NotAnObject),
        }
    }
}

} // verus!
