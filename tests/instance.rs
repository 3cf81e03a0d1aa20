use eureka_client::fields::DecodeError;
use eureka_client::json::JsonValue;
use eureka_client::model::{
    instance_schema, AmazonMetaData, DataCenterInfo, DcName, Instance, LeaseInfo,
    RegisterRequest, Status,
};

fn sample() -> Instance {
    Instance {
        host_name: "Foo".to_string(),
        app: "Bar".to_string(),
        ip_addr: "3.128.2.12".to_string(),
        vip_address: "127.0.0.1".to_string(),
        secure_vip_address: "127.0.0.2".to_string(),
        status: Status::Up,
        port: Some(80),
        secure_port: Some(443),
        homepage_url: "http://google.com".to_string(),
        status_page_url: "http://nytimes.com".to_string(),
        health_check_url: "http://washingtonpost.com".to_string(),
        data_center_info: DataCenterInfo {
            name: DcName::Amazon,
            metadata: AmazonMetaData {
                ami_launch_index: "001a".to_string(),
                local_hostname: "localhost0".to_string(),
                availability_zone: "US_East1a".to_string(),
                instance_id: "instance1a".to_string(),
                public_ip4: "32.23.21.212".to_string(),
                public_hostname: "foo.coma".to_string(),
                ami_manifest_path: "/dev/nulla".to_string(),
                local_ip4: "127.0.0.12".to_string(),
                hostname: "privatefoo.coma".to_string(),
                ami_id: "ami0023".to_string(),
                instance_type: "c4xlarged".to_string(),
            },
        },
        lease_info: Some(LeaseInfo {
            eviction_duration_in_secs: Some(9600),
        }),
        metadata: vec!["something".to_string()],
    }
}

fn members(v: JsonValue) -> Vec<(String, JsonValue)> {
    match v {
        JsonValue::Object(m) => m,
        _ => panic!("expected an object"),
    }
}

fn text_of(v: &JsonValue) -> String {
    v.to_text()
}

#[test]
fn test_instance() {
    let json = r#"{
       "hostName": "Foo",
       "app": "Bar",
       "ipAddr": "3.128.2.12",
       "vipAddress": "127.0.0.1",
       "secureVipAddress": "127.0.0.2",
       "status": "UP",
       "port": 80,
       "securePort": 443,
       "homePageUrl": "http://google.com",
       "statusPageUrl": "http://nytimes.com",
       "healthCheckUrl": "http://washingtonpost.com",
       "dataCenterInfo": {"name":"Amazon","metadata":
       {
            "ami-launch-index": "001a",
            "local-hostname": "localhost0",
            "availability-zone": "US_East1a",
            "instance-id": "instance1a",
            "public-ipv4": "32.23.21.212",
            "public-hostname": "foo.coma",
            "ami-manifest-path": "/dev/nulla",
            "local-ipv4": "127.0.0.12",
            "hostname": "privatefoo.coma",
            "ami-id": "ami0023",
            "instance-type": "c4xlarged"
       }},
       "leaseInfo": {"evictionDurationInSecs":9600},
       "metadata": ["something"]
    }"#
        .to_string()
        .replace(" ", "")
        .replace("\n", "");

    let instance = sample();
    let result = text_of(&instance.to_json());
    assert_eq!(json, result);
}

#[test]
fn absent_options_are_written_as_null() {
    let mut instance = sample();
    instance.port = None;
    instance.lease_info = None;
    instance.status = Status::OutOfService;
    let text = text_of(&instance.to_json());
    assert!(text.contains("\"port\":null,"));
    assert!(text.contains("\"leaseInfo\":null,"));
    assert!(text.contains("\"status\":\"OUT_OF_SERVICE\""));
}

#[test]
fn round_trip_gives_back_the_instance() {
    let instance = sample();
    let back = Instance::from_json(&instance.to_json()).unwrap();
    assert_eq!(text_of(&back.to_json()), text_of(&instance.to_json()));
    assert_eq!(back.host_name, "Foo");
    assert_eq!(back.port, Some(80));
    assert_eq!(back.status, Status::Up);
    assert_eq!(back.data_center_info.metadata.ami_id, "ami0023");
    assert_eq!(back.lease_info.unwrap().eviction_duration_in_secs, Some(9600));
    assert_eq!(back.metadata, vec!["something".to_string()]);
}

#[test]
fn round_trip_with_empty_options() {
    let mut instance = sample();
    instance.port = None;
    instance.secure_port = None;
    instance.lease_info = Some(LeaseInfo { eviction_duration_in_secs: None });
    instance.metadata = vec![];
    instance.data_center_info.name = DcName::MyOwn;
    let back = Instance::from_json(&instance.to_json()).unwrap();
    assert_eq!(back.port, None);
    assert_eq!(back.secure_port, None);
    assert_eq!(back.lease_info.unwrap().eviction_duration_in_secs, None);
    assert!(back.metadata.is_empty());
    assert_eq!(back.data_center_info.name, DcName::MyOwn);
}

#[test]
fn missing_member_is_named_in_any_order() {
    let mut m = members(sample().to_json());
    m.reverse();
    m.retain(|(k, _)| k != "healthCheckUrl");
    match Instance::from_json(&JsonValue::Object(m)) {
        Err(DecodeError::MissingField(f)) => assert_eq!(f, "healthCheckUrl"),
        other => panic!("expected a missing field, got {:?}", other),
    }
}

#[test]
fn first_repeated_member_is_named() {
    let mut m = members(sample().to_json());
    m.push(("status".to_string(), JsonValue::Str("DOWN".to_string())));
    m.push(("app".to_string(), JsonValue::Str("Baz".to_string())));
    match Instance::from_json(&JsonValue::Object(m)) {
        Err(DecodeError::DuplicateField(f)) => assert_eq!(f, "status"),
        other => panic!("expected a duplicate field, got {:?}", other),
    }
}

#[test]
fn each_missing_member_is_named() {
    let n = members(sample().to_json()).len();
    assert_eq!(n, 14);
    for k in 0..n {
        let mut m = members(sample().to_json());
        let (name, _) = m.remove(k);
        match Instance::from_json(&JsonValue::Object(m)) {
            Err(DecodeError::MissingField(f)) => assert_eq!(f, name),
            other => panic!("expected a missing field, got {:?}", other),
        }
    }
}

#[test]
fn repeated_member_is_named() {
    let mut m = members(sample().to_json());
    m.push(("app".to_string(), JsonValue::Str("Baz".to_string())));
    match Instance::from_json(&JsonValue::Object(m)) {
        Err(DecodeError::DuplicateField(f)) => assert_eq!(f, "app"),
        other => panic!("expected a duplicate field, got {:?}", other),
    }
}

#[test]
fn unknown_member_is_named_and_schema_listed() {
    let mut m = members(sample().to_json());
    m.insert(3, ("colour".to_string(), JsonValue::Str("red".to_string())));
    let err = Instance::from_json(&JsonValue::Object(m)).unwrap_err();
    match &err {
        DecodeError::UnknownField(f, accepted) => {
            assert_eq!(f, "colour");
            assert_eq!(accepted, &instance_schema());
        }
        other => panic!("expected an unknown field, got {:?}", other),
    }
    let full = err.describe();
    assert!(full.starts_with("unknown field `colour`, expected one of: `hostName` `app`"));
    for name in instance_schema() {
        assert!(full.contains(&format!("`{}`", name)));
    }
    assert!(full.ends_with("`leaseInfo` `metadata`"));
}

#[test]
fn wrong_shapes_are_invalid_values() {
    let mut m = members(sample().to_json());
    m[6].1 = JsonValue::Number(70000);
    match Instance::from_json(&JsonValue::Object(m)) {
        Err(DecodeError::InvalidValue(f)) => assert_eq!(f, "port"),
        other => panic!("expected an invalid value, got {:?}", other),
    }
    let mut m = members(sample().to_json());
    m[5].1 = JsonValue::Str("SLEEPING".to_string());
    match Instance::from_json(&JsonValue::Object(m)) {
        Err(DecodeError::InvalidValue(f)) => assert_eq!(f, "status"),
        other => panic!("expected an invalid value, got {:?}", other),
    }
    assert!(matches!(
        Instance::from_json(&JsonValue::Null),
        Err(DecodeError::NotAnObject)
    ));
}

#[test]
fn unknown_member_in_nested_object_lists_its_own_schema() {
    let mut m = members(sample().to_json());
    m[12].1 = JsonValue::Object(vec![
        ("evictionDurationInSecs".to_string(), JsonValue::Number(5)),
        ("renewal".to_string(), JsonValue::Number(5)),
    ]);
    let err = Instance::from_json(&JsonValue::Object(m)).unwrap_err();
    assert_eq!(
        err.describe(),
        "unknown field `renewal`, expected one of: `evictionDurationInSecs`"
    );
}

#[test]
fn describe_messages() {
    assert_eq!(DecodeError::NotAnObject.describe(), "expected a JSON object");
    assert_eq!(
        DecodeError::DuplicateField("app".to_string()).describe(),
        "duplicate field `app`"
    );
    assert_eq!(
        DecodeError::MissingField("port".to_string()).describe(),
        "missing field `port`"
    );
    assert_eq!(
        DecodeError::InvalidValue("status".to_string()).describe(),
        "invalid value for field `status`"
    );
}

#[test]
fn port_and_count_limits() {
    let mut m = members(sample().to_json());
    m[7].1 = JsonValue::Number(65535);
    assert_eq!(Instance::from_json(&JsonValue::Object(m)).unwrap().secure_port, Some(65535));
    let mut m = members(sample().to_json());
    m[7].1 = JsonValue::Number(65536);
    assert!(matches!(
        Instance::from_json(&JsonValue::Object(m)),
        Err(DecodeError::InvalidValue(f)) if f == "securePort"
    ));
    let mut m = members(sample().to_json());
    m[12].1 = JsonValue::Object(vec![(
        "evictionDurationInSecs".to_string(),
        JsonValue::Number(4294967296),
    )]);
    assert!(matches!(
        Instance::from_json(&JsonValue::Object(m)),
        Err(DecodeError::InvalidValue(f)) if f == "evictionDurationInSecs"
    ));
}

#[test]
fn nested_errors_come_through() {
    let mut m = members(sample().to_json());
    m[11].1 = JsonValue::Object(vec![
        ("name".to_string(), JsonValue::Str("Elsewhere".to_string())),
        ("metadata".to_string(), JsonValue::Null),
    ]);
    assert!(matches!(
        Instance::from_json(&JsonValue::Object(m)),
        Err(DecodeError::InvalidValue(f)) if f == "name"
    ));
    let mut m = members(sample().to_json());
    m[11].1 = JsonValue::Object(vec![(
        "name".to_string(),
        JsonValue::Str("Amazon".to_string()),
    )]);
    assert!(matches!(
        Instance::from_json(&JsonValue::Object(m)),
        Err(DecodeError::MissingField(f)) if f == "metadata"
    ));
    let mut m = members(sample().to_json());
    m[13].1 = JsonValue::Array(vec![JsonValue::Number(1)]);
    assert!(matches!(
        Instance::from_json(&JsonValue::Object(m)),
        Err(DecodeError::InvalidValue(f)) if f == "metadata"
    ));
}

#[test]
fn strings_are_escaped() {
    let v = JsonValue::Str("say \"hi\"\n".to_string());
    assert_eq!(v.to_text(), "\"say \\\"hi\\\"\\n\"");
}

#[test]
fn numbers_and_literals_are_written() {
    let v = JsonValue::Array(vec![
        JsonValue::Number(0),
        JsonValue::Number(18446744073709551615),
        JsonValue::Bool(true),
        JsonValue::Bool(false),
        JsonValue::Null,
    ]);
    assert_eq!(v.to_text(), "[0,18446744073709551615,true,false,null]");
    assert_eq!(JsonValue::Object(vec![]).to_text(), "{}");
}

#[test]
fn register_request_is_wrapped() {
    let r = RegisterRequest::new(sample());
    let text = r.to_json().to_text();
    assert!(text.starts_with("{\"instance\":{\"hostName\":\"Foo\""));
    assert!(text.ends_with("\"metadata\":[\"something\"]}}"));
}
