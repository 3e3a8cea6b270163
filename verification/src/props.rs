//! The properties that the REST catalog is built with.

use vstd::prelude::*;

use crate::options::Options;

verus! {

/// Hands out the constant `iceberg_catalog_rest::REST_CATALOG_PROP_URI`,
/// which holds the text `uri`.
#[verifier::external_body]
fn uri_key() -> (key: &'static str)
    ensures
        key@ == "uri"@,
{
    iceberg_catalog_rest::REST_CATALOG_PROP_URI
}

/// Hands out the constant `iceberg_catalog_rest::REST_CATALOG_PROP_WAREHOUSE`,
/// which holds the text `warehouse`.
#[verifier::external_body]
fn warehouse_key() -> (key: &'static str)
    ensures
        key@ == "warehouse"@,
{
    iceberg_catalog_rest::REST_CATALOG_PROP_WAREHOUSE
}

/// Hands out the constant `iceberg::io::S3_ENDPOINT`,
/// which holds the text `s3.endpoint`.
#[verifier::external_body]
fn endpoint_key() -> (key: &'static str)
    ensures
        key@ == "s3.endpoint"@,
{
    iceberg::io::S3_ENDPOINT
}

/// Hands out the constant `iceberg::io::S3_REGION`,
/// which holds the text `s3.region`.
#[verifier::external_body]
fn region_key() -> (key: &'static str)
    ensures
        key@ == "s3.region"@,
{
    iceberg::io::S3_REGION
}

/// Hands out the constant `iceberg::io::S3_ACCESS_KEY_ID`,
/// which holds the text `s3.access-key-id`.
#[verifier::external_body]
fn access_key_id_key() -> (key: &'static str)
    ensures
        key@ == "s3.access-key-id"@,
{
    iceberg::io::S3_ACCESS_KEY_ID
}

/// Hands out the constant `iceberg::io::S3_SECRET_ACCESS_KEY`,
/// which holds the text `s3.secret-access-key`.
#[verifier::external_body]
fn secret_access_key_key() -> (key: &'static str)
    ensures
        key@ == "s3.secret-access-key"@,
{
    iceberg::io::S3_SECRET_ACCESS_KEY
}

/// Hands out the constant `iceberg::io::S3_PATH_STYLE_ACCESS`,
/// which holds the text `s3.path-style-access`.
#[verifier::external_body]
fn path_style_key() -> (key: &'static str)
    ensures
        key@ == "s3.path-style-access"@,
{
    iceberg::io::S3_PATH_STYLE_ACCESS
}

/// A key with its value.
pub type Prop = (Seq<char>, Seq<char>);

/// The property that an optional setting gives, or none.
pub open spec fn optional(key: Seq<char>, value: Option<Seq<char>>) -> Seq<Prop> {
    match value {
        Some(v) => seq![(key, v)],
        None => Seq::empty(),
    }
}

/// A switch as the text of a property.
pub open spec fn switch_text(on: bool) -> Seq<char> {
    if on {
        "true"@
    } else {
        "false"@
    }
}

/// The properties that the settings ask for. A setting that was not given has none.
pub open spec fn props_of(o: crate::options::OptionsView) -> Seq<Prop> {
    seq![("uri"@, o.catalog_uri), ("warehouse"@, o.warehouse)]
        + optional("s3.endpoint"@, o.s3_endpoint)
        + optional("s3.region"@, o.s3_region)
        + optional("s3.access-key-id"@, o.s3_access_key_id)
        + optional("s3.secret-access-key"@, o.s3_secret_access_key)
        + seq![("s3.path-style-access"@, switch_text(o.s3_path_style))]
}

/// The keys that a property can have.
pub open spec fn known_keys() -> Seq<Seq<char>> {
    seq![
        "uri"@,
        "warehouse"@,
        "s3.endpoint"@,
        "s3.region"@,
        "s3.access-key-id"@,
        "s3.secret-access-key"@,
        "s3.path-style-access"@,
    ]
}

/// The properties as a map; the last of several with one key counts.
pub open spec fn map_of(props: Seq<Prop>) -> Map<Seq<char>, Seq<char>>
    decreases props.len(),
{
    if props.len() == 0 {
        Map::empty()
    } else {
        map_of(props.drop_last()).insert(props.last().0, props.last().1)
    }
}

/// Adds a property.
fn put(props: &mut Vec<(String, String)>, key: &str, value: &str)
    ensures
        final(props).deep_view() == old(props).deep_view().push((key@, value@)),
{
    let ghost before = props.deep_view();
    props.push((key.to_string(), value.to_string()));
    assert(props.deep_view() =~= before.push((key@, value@)));
}

/// Adds a property if the setting was given.
fn put_optional(props: &mut Vec<(String, String)>, key: &str, value: &Option<String>)
    ensures
        final(props).deep_view() == old(props).deep_view() + optional(key@, value.deep_view()),
{
    let ghost before = props.deep_view();
    if let Some(v) = value {
        put(props, key, v.as_str());
        assert(props.deep_view() =~= before + optional(key@, value.deep_view()));
    } else {
        assert(before + optional(key@, value.deep_view()) =~= before);
    }
}

/// The properties of the catalog, in a fixed order.
pub fn catalog_props(options: &Options) -> (props: Vec<(String, String)>)
    ensures
        props.deep_view() == props_of(options@),
        forall|key: Seq<char>, value: Seq<char>| #[trigger]
            props.deep_view().contains((key, value)) <==> {
                ||| key == "uri"@ && value == options.catalog_uri@
                ||| key == "warehouse"@ && value == options.warehouse@
                ||| key == "s3.endpoint"@ && options.s3_endpoint.deep_view() == Some(value)
                ||| key == "s3.region"@ && options.s3_region.deep_view() == Some(value)
                ||| key == "s3.access-key-id"@ && options.s3_access_key_id.deep_view() == Some(value)
                ||| key == "s3.secret-access-key"@ && options.s3_secret_access_key.deep_view() == Some(
                    value,
                )
                ||| key == "s3.path-style-access"@ && value == if options.s3_path_style {
                    "true"@
                } else {
                    "false"@
                }
            },
        forall|i: int, j: int|
            0 <= i < j < props@.len() ==> (#[trigger] props@[i]).0@ != (#[trigger] props@[j]).0@,
{
    let mut props: Vec<(String, String)> = Vec::new();
    put(&mut props, uri_key(), options.catalog_uri.as_str());
    put(&mut props, warehouse_key(), options.warehouse.as_str());
    assert(props.deep_view() =~= seq![
        ("uri"@, options@.catalog_uri),
        ("warehouse"@, options@.warehouse),
    ]);
    put_optional(&mut props, endpoint_key(), &options.s3_endpoint);
    put_optional(&mut props, region_key(), &options.s3_region);
    put_optional(&mut props, access_key_id_key(), &options.s3_access_key_id);
    put_optional(&mut props, secret_access_key_key(), &options.s3_secret_access_key);
    let path_style: &str = if options.s3_path_style {
        "true"
    } else {
        "false"
    };
    put(&mut props, path_style_key(), path_style);
    assert(props.deep_view() =~= props_of(options@));
    proof {
        assert forall|key: Seq<char>, value: Seq<char>| #[trigger]
            props.deep_view().contains((key, value)) <==> {
                ||| key == "uri"@ && value == options.catalog_uri@
                ||| key == "warehouse"@ && value == options.warehouse@
                ||| key == "s3.endpoint"@ && options.s3_endpoint.deep_view() == Some(value)
                ||| key == "s3.region"@ && options.s3_region.deep_view() == Some(value)
                ||| key == "s3.access-key-id"@ && options.s3_access_key_id.deep_view() == Some(value)
                ||| key == "s3.secret-access-key"@ && options.s3_secret_access_key.deep_view() == Some(
                    value,
                )
                ||| key == "s3.path-style-access"@ && value == if options.s3_path_style {
                    "true"@
                } else {
                    "false"@
                }
            } by {
            setting_is_its_property(*options, key, value);
        }
        keys_are_unique(options@);
        assert forall|i: int, j: int| 0 <= i < j < props@.len() implies (#[trigger] props@[i]).0@
            != (#[trigger] props@[j]).0@ by {
            assert(props_of(options@)[i].0 == props@[i].0@);
            assert(props_of(options@)[j].0 == props@[j].0@);
        }
    }
    props
}

/// A property behind others changes only what its own key gives.
proof fn map_of_more(props: Seq<Prop>, key: Seq<char>, value: Option<Seq<char>>)
    ensures
        map_of(props + optional(key, value)) == match value {
            Some(v) => map_of(props).insert(key, v),
            None => map_of(props),
        },
{
    match value {
        Some(v) => {
            assert((props + optional(key, value)).drop_last() =~= props);
        },
        None => {
            assert(props + optional(key, value) =~= props);
        },
    }
}

/// The keys are different texts.
proof fn keys_differ()
    ensures
        known_keys().no_duplicates(),
{
    reveal_strlit("uri");
    reveal_strlit("warehouse");
    reveal_strlit("s3.endpoint");
    reveal_strlit("s3.region");
    reveal_strlit("s3.access-key-id");
    reveal_strlit("s3.secret-access-key");
    reveal_strlit("s3.path-style-access");
    assert("uri"@.len() == 3);
    assert("warehouse"@.len() == 9);
    assert("s3.endpoint"@.len() == 11);
    assert("s3.region"@.len() == 9);
    assert("s3.region"@[0] == 's' && "warehouse"@[0] == 'w');
    assert("s3.access-key-id"@.len() == 16);
    assert("s3.secret-access-key"@.len() == 20);
    assert("s3.path-style-access"@.len() == 20);
    assert("s3.secret-access-key"@[3] == 's' && "s3.path-style-access"@[3] == 'p');
}

/// Each key of the catalog gives the setting behind it, a setting that was not
/// given has no key, and there are no other keys.
pub proof fn settings_by_key(o: crate::options::OptionsView)
    ensures
        map_of(props_of(o)).get("uri"@) == Some(o.catalog_uri),
        map_of(props_of(o)).get("warehouse"@) == Some(o.warehouse),
        map_of(props_of(o)).get("s3.endpoint"@) == o.s3_endpoint,
        map_of(props_of(o)).get("s3.region"@) == o.s3_region,
        map_of(props_of(o)).get("s3.access-key-id"@) == o.s3_access_key_id,
        map_of(props_of(o)).get("s3.secret-access-key"@) == o.s3_secret_access_key,
        map_of(props_of(o)).get("s3.path-style-access"@) == Some(switch_text(o.s3_path_style)),
        forall|key: Seq<char>| #[trigger]
            map_of(props_of(o)).contains_key(key) ==> known_keys().contains(key),
{
    keys_differ();
    let keys = known_keys();
    assert(forall|i: int, j: int| 0 <= i < j < 7 ==> #[trigger] keys[i] != #[trigger] keys[j]);
    let none = Seq::<Prop>::empty();
    let style = Some(switch_text(o.s3_path_style));
    let p1 = none + optional(keys[0], Some(o.catalog_uri));
    let p2 = p1 + optional(keys[1], Some(o.warehouse));
    let p3 = p2 + optional(keys[2], o.s3_endpoint);
    let p4 = p3 + optional(keys[3], o.s3_region);
    let p5 = p4 + optional(keys[4], o.s3_access_key_id);
    let p6 = p5 + optional(keys[5], o.s3_secret_access_key);
    let p7 = p6 + optional(keys[6], style);
    map_of_more(none, keys[0], Some(o.catalog_uri));
    map_of_more(p1, keys[1], Some(o.warehouse));
    map_of_more(p2, keys[2], o.s3_endpoint);
    map_of_more(p3, keys[3], o.s3_region);
    map_of_more(p4, keys[4], o.s3_access_key_id);
    map_of_more(p5, keys[5], o.s3_secret_access_key);
    map_of_more(p6, keys[6], style);
    assert(p2 =~= seq![(keys[0], o.catalog_uri), (keys[1], o.warehouse)]);
    assert(p7 =~= props_of(o));
}

/// No key occurs twice, so that making a map of the properties loses none.
pub proof fn keys_are_unique(o: crate::options::OptionsView)
    ensures
        forall|i: int, j: int|
            0 <= i < j < props_of(o).len() ==> (#[trigger] props_of(o)[i]).0 != (
            #[trigger] props_of(o)[j]).0,
{
    keys_differ();
    let keys = known_keys();
    assert(forall|i: int, j: int| 0 <= i < j < 7 ==> #[trigger] keys[i] != #[trigger] keys[j]);
}

proof fn contains_more(
    props: Seq<Prop>,
    key: Seq<char>,
    value: Option<Seq<char>>,
    prop: Prop,
)
    ensures
        (props + optional(key, value)).contains(prop) <==> props.contains(prop) || (value is Some
            && prop == (key, value->0)),
{
    let all = props + optional(key, value);
    if props.contains(prop) {
        let i = choose|i: int| 0 <= i < props.len() && props[i] == prop;
        assert(all[i] == prop);
    }
    if value is Some && prop == (key, value->0) {
        assert(all[props.len() as int] == prop);
    }
    if all.contains(prop) && !props.contains(prop) {
        let i = choose|i: int| 0 <= i < all.len() && all[i] == prop;
        if i < props.len() {
            assert(props[i] == prop);
        }
    }
}

/// The catalog gets a property exactly where a setting was given, with the value of that
/// setting under its own key.
pub proof fn setting_is_its_property(o: Options, key: Seq<char>, value: Seq<char>)
    ensures
        props_of(o@).contains((key, value)) <==> {
            ||| key == "uri"@ && value == o.catalog_uri@
            ||| key == "warehouse"@ && value == o.warehouse@
            ||| key == "s3.endpoint"@ && o.s3_endpoint.deep_view() == Some(value)
            ||| key == "s3.region"@ && o.s3_region.deep_view() == Some(value)
            ||| key == "s3.access-key-id"@ && o.s3_access_key_id.deep_view() == Some(value)
            ||| key == "s3.secret-access-key"@ && o.s3_secret_access_key.deep_view() == Some(
                value,
            )
            ||| key == "s3.path-style-access"@ && value == if o.s3_path_style {
                "true"@
            } else {
                "false"@
            }
        },
{
    let prop = (key, value);
    let none = Seq::<Prop>::empty();
    let v = o@;
    let style = Some(switch_text(v.s3_path_style));
    let p1 = none + optional("uri"@, Some(v.catalog_uri));
    let p2 = p1 + optional("warehouse"@, Some(v.warehouse));
    let p3 = p2 + optional("s3.endpoint"@, v.s3_endpoint);
    let p4 = p3 + optional("s3.region"@, v.s3_region);
    let p5 = p4 + optional("s3.access-key-id"@, v.s3_access_key_id);
    let p6 = p5 + optional("s3.secret-access-key"@, v.s3_secret_access_key);
    let p7 = p6 + optional("s3.path-style-access"@, style);
    assert(!none.contains(prop));
    contains_more(none, "uri"@, Some(v.catalog_uri), prop);
    contains_more(p1, "warehouse"@, Some(v.warehouse), prop);
    contains_more(p2, "s3.endpoint"@, v.s3_endpoint, prop);
    contains_more(p3, "s3.region"@, v.s3_region, prop);
    contains_more(p4, "s3.access-key-id"@, v.s3_access_key_id, prop);
    contains_more(p5, "s3.secret-access-key"@, v.s3_secret_access_key, prop);
    contains_more(p6, "s3.path-style-access"@, style, prop);
    assert(p2 =~= seq![("uri"@, v.catalog_uri), ("warehouse"@, v.warehouse)]);
    assert(p7 =~= props_of(v));
}

/// The properties come in one order, whichever settings were given.
pub proof fn properties_keep_their_order(o: Options, i: int, j: int)
    requires
        0 <= i < j < props_of(o@).len(),
    ensures
        ({
            let order = seq![
                "uri"@,
                "warehouse"@,
                "s3.endpoint"@,
                "s3.region"@,
                "s3.access-key-id"@,
                "s3.secret-access-key"@,
                "s3.path-style-access"@,
            ];
            &&& order.contains(props_of(o@)[i].0)
            &&& order.contains(props_of(o@)[j].0)
            &&& order.index_of(props_of(o@)[i].0) < order.index_of(props_of(o@)[j].0)
        }),
{
    let order = known_keys();
    keys_differ();
    assert forall|k: int| 0 <= k < 7 implies order.index_of(#[trigger] order[k]) == k by {
        assert(order.contains(order[k]));
        let found = order.index_of(order[k]);
        assert(0 <= found < order.len() && order[found] == order[k]);
    }
    assert(order.index_of(order[0]) == 0);
    assert(order.index_of(order[1]) == 1);
    assert(order.index_of(order[2]) == 2);
    assert(order.index_of(order[3]) == 3);
    assert(order.index_of(order[4]) == 4);
    assert(order.index_of(order[5]) == 5);
    assert(order.index_of(order[6]) == 6);
}

} // verus!
