use std::collections::HashMap;

use iceberg::io::{
    S3_ACCESS_KEY_ID, S3_ENDPOINT, S3_PATH_STYLE_ACCESS, S3_REGION, S3_SECRET_ACCESS_KEY,
};
use iceberg_catalog_rest::{REST_CATALOG_PROP_URI, REST_CATALOG_PROP_WAREHOUSE};
use iceberg_register::options::Options;
use iceberg_register::props::catalog_props;

fn options() -> Options {
    Options {
        catalog_uri: "http://nessie.infra:port/iceberg/main".to_string(),
        warehouse: "s3://my-bucket".to_string(),
        s3_endpoint: None,
        s3_region: None,
        s3_access_key_id: None,
        s3_secret_access_key: None,
        s3_path_style: true,
        table_id: "my.namespace.nested.table".to_string(),
        paths_file: "/tmp/paths.txt".to_string(),
        skip_duplicate_check: false,
    }
}

fn pair(key: &str, value: &str) -> (String, String) {
    (key.to_string(), value.to_string())
}

#[test]
fn settings_that_are_missing_have_no_property() {
    assert_eq!(
        catalog_props(&options()),
        vec![
            pair("uri", "http://nessie.infra:port/iceberg/main"),
            pair("warehouse", "s3://my-bucket"),
            pair("s3.path-style-access", "true"),
        ]
    );
}

#[test]
fn all_settings_in_order() {
    let mut o = options();
    o.s3_endpoint = Some("https://s3.eu-central-1.amazonaws.com".to_string());
    o.s3_region = Some("eu-central-1".to_string());
    o.s3_access_key_id = Some("id".to_string());
    o.s3_secret_access_key = Some("".to_string());
    o.s3_path_style = false;
    assert_eq!(
        catalog_props(&o),
        vec![
            pair(REST_CATALOG_PROP_URI, "http://nessie.infra:port/iceberg/main"),
            pair(REST_CATALOG_PROP_WAREHOUSE, "s3://my-bucket"),
            pair(S3_ENDPOINT, "https://s3.eu-central-1.amazonaws.com"),
            pair(S3_REGION, "eu-central-1"),
            pair(S3_ACCESS_KEY_ID, "id"),
            pair(S3_SECRET_ACCESS_KEY, ""),
            pair(S3_PATH_STYLE_ACCESS, "false"),
        ]
    );
}

#[test]
fn keys_are_spelled_as_stated() {
    let mut o = options();
    o.s3_endpoint = Some("e".to_string());
    o.s3_region = Some("r".to_string());
    o.s3_access_key_id = Some("k".to_string());
    o.s3_secret_access_key = Some("s".to_string());
    let keys: Vec<String> = catalog_props(&o).into_iter().map(|p| p.0).collect();
    assert_eq!(
        keys,
        vec![
            "uri",
            "warehouse",
            "s3.endpoint",
            "s3.region",
            "s3.access-key-id",
            "s3.secret-access-key",
            "s3.path-style-access",
        ]
    );
}

#[test]
fn a_map_of_the_properties_loses_none() {
    let mut o = options();
    o.s3_region = Some("r".to_string());
    o.s3_secret_access_key = Some("s".to_string());
    let props = catalog_props(&o);
    let count = props.len();
    let map: HashMap<String, String> = props.into_iter().collect();
    assert_eq!(map.len(), count);
    assert_eq!(map.get("s3.region").map(String::as_str), Some("r"));
    assert_eq!(map.get("s3.secret-access-key").map(String::as_str), Some("s"));
    assert_eq!(map.get("s3.endpoint"), None);
    assert_eq!(map.get("s3.access-key-id"), None);
}
