use eureka_client::client::{EurekaClient, EurekaClientError, Method};
use eureka_client::json::JsonValue;
use eureka_client::model::{
    AmazonMetaData, DataCenterInfo, DcName, Instance, LeaseInfo, RegisterRequest, Status,
};

fn instance() -> Instance {
    Instance {
        host_name: "host".to_string(),
        app: "APP".to_string(),
        ip_addr: "10.0.0.1".to_string(),
        vip_address: "app".to_string(),
        secure_vip_address: "app".to_string(),
        status: Status::Starting,
        port: Some(8080),
        secure_port: None,
        homepage_url: "h".to_string(),
        status_page_url: "s".to_string(),
        health_check_url: "c".to_string(),
        data_center_info: DataCenterInfo {
            name: DcName::MyOwn,
            metadata: AmazonMetaData {
                ami_launch_index: String::new(),
                local_hostname: String::new(),
                availability_zone: String::new(),
                instance_id: String::new(),
                public_ip4: String::new(),
                public_hostname: String::new(),
                ami_manifest_path: String::new(),
                local_ip4: String::new(),
                hostname: String::new(),
                ami_id: String::new(),
                instance_type: String::new(),
            },
        },
        lease_info: Some(LeaseInfo { eviction_duration_in_secs: Some(90) }),
        metadata: vec![],
    }
}

fn obj(members: Vec<(&str, JsonValue)>) -> JsonValue {
    JsonValue::Object(members.into_iter().map(|(k, v)| (k.to_string(), v)).collect())
}

fn application_body() -> JsonValue {
    obj(vec![(
        "application",
        obj(vec![
            ("name", JsonValue::Str("APP".to_string())),
            ("instance", JsonValue::Array(vec![instance().to_json()])),
        ]),
    )])
}

fn application_of(v: JsonValue) -> JsonValue {
    match v {
        JsonValue::Object(mut m) => m.remove(0).1,
        _ => unreachable!(),
    }
}

fn header(req: &eureka_client::client::HttpRequest, name: &str) -> Option<String> {
    req.headers.iter().find(|(k, _)| k == name).map(|(_, v)| v.clone())
}

#[test]
fn malformed_base_url_is_refused_at_construction() {
    assert!(matches!(
        EurekaClient::new("tester", "http://"),
        Err(EurekaClientError::InvalidUrl)
    ));
    assert!(matches!(
        EurekaClient::new("tester", "not a url"),
        Err(EurekaClientError::InvalidUrl)
    ));
    assert!(matches!(EurekaClient::new("tester", ""), Ok(_)));
    let client = EurekaClient::new("tester", "http://registry:8761/eureka").unwrap();
    assert_eq!(client.client_name(), "tester");
    assert_eq!(client.eureka_cluster_url(), "http://registry:8761/eureka");
}

#[test]
fn register_statuses() {
    assert_eq!(EurekaClient::register_result(400), Err(EurekaClientError::BadRequest));
    assert_eq!(EurekaClient::register_result(500), Err(EurekaClientError::InternalServerError));
    assert_eq!(EurekaClient::register_result(200), Ok(()));
    assert_eq!(EurekaClient::register_result(201), Ok(()));
    assert_eq!(EurekaClient::register_result(204), Ok(()));
    assert_eq!(EurekaClient::register_result(404), Ok(()));
}

#[test]
fn register_request_shape() {
    let client = EurekaClient::new("tester", "http://registry:8761/eureka").unwrap();
    let req = client.register("APP", &RegisterRequest::new(instance()));
    assert_eq!(req.method, Method::Post);
    assert_eq!(req.uri, "http://registry:8761/eureka/v2/apps/APP");
    assert_eq!(header(&req, "User-Agent"), Some("Rust Hyper/tester".to_string()));
    assert_eq!(header(&req, "Accept"), Some("application/json".to_string()));
    assert_eq!(header(&req, "Content-Type"), Some("application/json".to_string()));
    assert_eq!(header(&req, "Accept-Charset"), Some("utf-8".to_string()));
    assert_eq!(header(&req, "Content-Length"), Some(req.body.len().to_string()));
    assert!(req.body.starts_with("{\"instance\":{\"hostName\":\"host\""));
}

#[test]
fn get_application_request_asks_for_gzip() {
    let client = EurekaClient::new("tester", "http://r").unwrap();
    let req = client.get_application("APP");
    assert_eq!(req.method, Method::Get);
    assert_eq!(req.uri, "http://r/v2/apps/APP");
    assert_eq!(header(&req, "Accept-Encoding"), Some("gzip".to_string()));
    assert_eq!(req.headers.len(), 5);
    assert!(req.body.is_empty());
}

#[test]
fn get_applications_request_has_no_gzip() {
    let client = EurekaClient::new("tester", "http://r").unwrap();
    let req = client.get_applications();
    assert_eq!(req.method, Method::Get);
    assert_eq!(req.uri, "http://r/v2/apps");
    assert_eq!(header(&req, "Accept-Encoding"), None);
    assert_eq!(req.headers.len(), 4);
}

#[test]
fn application_outcomes() {
    assert!(matches!(
        EurekaClient::application_result(404, Some(application_body())),
        Err(EurekaClientError::NotFound)
    ));
    assert!(matches!(
        EurekaClient::application_result(200, Some(JsonValue::Str("nope".to_string()))),
        Err(EurekaClientError::TransportError)
    ));
    assert!(matches!(
        EurekaClient::application_result(200, None),
        Err(EurekaClientError::TransportError)
    ));
    let ok = EurekaClient::application_result(200, Some(application_body())).unwrap();
    assert_eq!(ok.application.name, "APP");
    assert_eq!(ok.application.instance.len(), 1);
    assert_eq!(ok.application.instance[0].host_name, "host");
    assert_eq!(ok.application.instance[0].status, Status::Starting);
}

#[test]
fn applications_outcomes() {
    let body = || obj(vec![(
        "applications",
        obj(vec![
            ("versions__delta", JsonValue::Str("1".to_string())),
            ("apps__hashcode", JsonValue::Str("UP_1_".to_string())),
            ("application", JsonValue::Array(vec![application_of(application_body())])),
        ]),
    )]);
    assert!(matches!(
        EurekaClient::applications_result(404, Some(body())),
        Err(EurekaClientError::NotFound)
    ));
    assert!(matches!(
        EurekaClient::applications_result(200, Some(application_body())),
        Err(EurekaClientError::TransportError)
    ));
    let ok = EurekaClient::applications_result(200, Some(body())).unwrap();
    assert_eq!(ok.applications.apps_hashcode, "UP_1_");
    assert_eq!(ok.applications.application.len(), 1);
    assert_eq!(ok.applications.application[0].instance[0].port, Some(8080));
}
