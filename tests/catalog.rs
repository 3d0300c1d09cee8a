use template_store::{
    catalog_entries, logical_name, logical_names, parse_resource_suffix, registrations, resolve_resource_suffix,
    ConfigValue, ConstantValue, FilterKind, GlobalAlert, Pool, Registration, TestDatabase,
};

fn text_of(r: &Registration) -> Option<&str> {
    match r {
        Registration::Constant { value: ConstantValue::Text(t), .. } => Some(t.as_str()),
        _ => None,
    }
}

#[test]
fn suffix_from_banner() {
    assert_eq!(
        parse_resource_suffix("rustc 1.44.0-nightly (f509b26a7 2020-03-18)"),
        Some(String::from("20200318-1.44.0-nightly-f509b26a7"))
    );
    assert_eq!(parse_resource_suffix("rustc 1.44.0-nightly"), None);
    assert_eq!(parse_resource_suffix("rustc 1.44.0 (f509b26a7 2020-3-18)"), None);
}

#[test]
fn resolver_falls_back() {
    assert_eq!(resolve_resource_suffix(&ConfigValue::Missing), "???");
    assert_eq!(resolve_resource_suffix(&ConfigValue::Other), "???");
    assert_eq!(resolve_resource_suffix(&ConfigValue::Text(String::from("garbage"))), "???");
    assert_eq!(
        resolve_resource_suffix(&ConfigValue::Text(String::from("rustc 1.50.0 (abc 2021-02-10)"))),
        "20210210-1.50.0-abc"
    );
}

#[test]
fn build_succeeds_without_compiler_version() {
    let db = TestDatabase::new("empty");
    let entries = catalog_entries(None, "0.1.0", db.conn());
    assert_eq!(entries.len(), 6);
    assert_eq!(text_of(&entries[2]), Some("???"));
}

#[test]
fn build_reads_compiler_version() {
    let mut db = TestDatabase::new("versions");
    db.set("rustc_version", ConfigValue::Other);
    assert_eq!(text_of(&catalog_entries(None, "v", &db.pool())[2]), Some("???"));
    db.set("rustc_version", ConfigValue::Text(String::from("rustc 1.44.0-nightly (f509b26a7 2020-03-18)")));
    assert_eq!(
        text_of(&catalog_entries(None, "v", &db.pool())[2]),
        Some("20200318-1.44.0-nightly-f509b26a7")
    );
    assert_eq!(db.schema(), "versions");
}

#[test]
fn pool_lookup() {
    let mut p = Pool::new();
    assert!(matches!(p.get("k"), ConfigValue::Missing));
    p.set("k", ConfigValue::Text(String::from("a")));
    p.set("j", ConfigValue::Other);
    p.set("k", ConfigValue::Text(String::from("b")));
    assert!(matches!(p.get("k"), ConfigValue::Text(t) if t == "b"));
    assert!(matches!(p.get("j"), ConfigValue::Other));
    assert!(matches!(p.copy().get("k"), ConfigValue::Text(t) if t == "b"));
}

#[test]
fn registration_order() {
    let alert = GlobalAlert {
        url: String::from("/x"),
        text: String::from("maintenance"),
        css_class: String::from("warn"),
        fa_icon: String::from("bell"),
    };
    let r = registrations(Some(alert), "1.2.3", String::from("sfx"));
    assert!(matches!(&r[0], Registration::Constant { name, value: ConstantValue::Alert(a) } if name == "global_alert" && a.text == "maintenance"));
    assert_eq!(text_of(&r[1]), Some("1.2.3"));
    assert_eq!(text_of(&r[2]), Some("sfx"));
    assert!(matches!(&r[3], Registration::Filter { name, kind: FilterKind::Timeformat } if name == "timeformat"));
    assert!(matches!(&r[4], Registration::Filter { name, kind: FilterKind::Dbg } if name == "dbg"));
    assert!(matches!(&r[5], Registration::Filter { name, kind: FilterKind::Dedent } if name == "dedent"));
    let none = registrations(None, "1.2.3", String::from("sfx"));
    assert!(matches!(&none[0], Registration::Constant { value: ConstantValue::Null, .. }));
}

#[test]
fn logical_names_use_slashes() {
    assert_eq!(logical_name("a/b/c.tmpl"), Ok(String::from("a/b/c.tmpl")));
    assert_eq!(logical_name("core/home.html"), Ok(String::from("core/home.html")));
}

#[test]
fn same_inputs_same_catalog_entries() {
    let mut db = TestDatabase::new("again");
    db.set("rustc_version", ConfigValue::Text(String::from("rustc 1.0.0 (h 2015-05-15)")));
    let a = catalog_entries(None, "v", db.conn());
    let b = catalog_entries(None, "v", db.conn());
    assert_eq!(format!("{:?}", a), format!("{:?}", b));
}

#[test]
fn names_for_a_scan() {
    let rels = vec![String::from("a/b/c.tmpl"), String::from("base.html")];
    assert_eq!(
        logical_names(&rels),
        Ok(vec![String::from("a/b/c.tmpl"), String::from("base.html")])
    );
    assert_eq!(logical_names(&Vec::new()), Ok(Vec::new()));
}
