use cargo_proxy::{
    add_proxy_config, apply, can_install, ensure_table, remove_proxy_config, ResolvedProxy,
};
use toml_edit::DocumentMut;

fn parse(text: &str) -> DocumentMut {
    match text.parse::<DocumentMut>() {
        Ok(doc) => doc,
        Err(e) => panic!("not TOML: {}", e),
    }
}

fn text_at(doc: &DocumentMut, path: &[&str]) -> Option<String> {
    let mut item = doc.as_item();
    for key in path {
        item = item.get(key)?;
    }
    item.as_str().map(|s| s.to_string())
}

fn keys_at(doc: &DocumentMut, path: &[&str]) -> Vec<String> {
    let mut item = doc.as_item();
    for key in path {
        item = match item.get(key) {
            Some(i) => i,
            None => panic!("no table at {:?}", path),
        };
    }
    match item.as_table_like() {
        Some(t) => t.iter().filter(|(_, i)| !i.is_none()).map(|(k, _)| k.to_string()).collect(),
        None => panic!("no table at {:?}", path),
    }
}

const WITH_USTC: &str = "# my settings\n\
[build]\n\
jobs = 4 # not too many\n\
\n\
[source.crates-io]\n\
replace-with = \"ustc\"\n\
local = \"kept\"\n\
\n\
[source.ustc]\n\
registry = \"sparse+https://mirrors.ustc.edu.cn/crates.io-index/\"\n\
\n\
[registries.mine]\n\
index = \"https://example.com/index\"\n\
\n\
[net]\n\
git-fetch-with-cli = true\n\
retry = 3\n";

#[test]
fn remove_takes_the_keys_of_a_mirror_and_no_others() {
    let mut doc = parse(WITH_USTC);
    remove_proxy_config(&mut doc);
    assert_eq!(keys_at(&doc, &[]), vec!["build", "source", "registries", "net"]);
    assert_eq!(keys_at(&doc, &["source"]), vec!["crates-io"]);
    assert_eq!(keys_at(&doc, &["source", "crates-io"]), vec!["local"]);
    assert_eq!(text_at(&doc, &["source", "crates-io", "local"]), Some("kept".to_string()));
    assert_eq!(keys_at(&doc, &["registries"]), Vec::<String>::new());
    assert_eq!(keys_at(&doc, &["net"]), vec!["retry"]);
    assert_eq!(keys_at(&doc, &["build"]), vec!["jobs"]);
}

#[test]
fn remove_keeps_the_text_of_what_it_leaves() {
    let mut doc = parse(WITH_USTC);
    remove_proxy_config(&mut doc);
    let out = doc.to_string();
    assert!(out.starts_with("# my settings\n[build]\njobs = 4 # not too many\n"));
    assert!(out.contains("local = \"kept\"\n"));
    assert!(out.contains("retry = 3\n"));
    assert!(!out.contains("replace-with"));
    assert!(!out.contains("ustc"));
    assert!(!out.contains("git-fetch-with-cli"));
    assert!(!out.contains("example.com"));
}

#[test]
fn remove_twice_is_remove_once() {
    let mut doc = parse(WITH_USTC);
    remove_proxy_config(&mut doc);
    let once = doc.to_string();
    remove_proxy_config(&mut doc);
    assert_eq!(doc.to_string(), once);
}

#[test]
fn remove_leaves_a_document_without_a_mirror_as_it_is() {
    let text = "[build]\njobs = 4\n\n[http]\nproxy = \"localhost:8080\" # local\n";
    let mut doc = parse(text);
    remove_proxy_config(&mut doc);
    assert_eq!(doc.to_string(), text);
    let mut empty = DocumentMut::new();
    remove_proxy_config(&mut empty);
    assert_eq!(empty.to_string(), "");
}

#[test]
fn remove_leaves_values_that_are_no_tables() {
    let text = "source = \"elsewhere\"\nregistries = 3\nnet = [1, 2]\n";
    let mut doc = parse(text);
    remove_proxy_config(&mut doc);
    assert_eq!(doc.to_string(), text);
}

#[test]
fn remove_clears_an_inline_crates_io() {
    let mut doc = parse("[source]\ncrates-io = { replace-with = 'ustc', protocol = 'sparse' }\n");
    remove_proxy_config(&mut doc);
    assert!(doc["source"]["crates-io"].get("replace-with").is_none());
    assert_eq!(doc["source"]["crates-io"]["protocol"].as_str(), Some("sparse"));
    assert!(doc["source"]["crates-io"].is_inline_table());
    assert_eq!(doc.to_string(), "[source]\ncrates-io = { protocol = 'sparse' }\n");
}

#[test]
fn remove_clears_inline_tables_at_every_place() {
    let mut doc = parse(
        "source = { crates-io = { replace-with = \"ustc\", local = 1 }, ustc = { registry = \"x\" } }\n\
registries = { mine = { index = \"y\" } }\n\
net = { git-fetch-with-cli = true, retry = 2 }\n",
    );
    remove_proxy_config(&mut doc);
    assert_eq!(keys_at(&doc, &["source"]), vec!["crates-io"]);
    assert_eq!(keys_at(&doc, &["source", "crates-io"]), vec!["local"]);
    assert_eq!(keys_at(&doc, &["registries"]), Vec::<String>::new());
    assert_eq!(keys_at(&doc, &["net"]), vec!["retry"]);
    assert!(doc["source"].is_inline_table());
    assert!(doc["net"].is_inline_table());
    let once = doc.to_string();
    remove_proxy_config(&mut doc);
    assert_eq!(doc.to_string(), once);
}

#[test]
fn remove_leaves_a_crates_io_that_is_no_table() {
    let mut doc = parse("[source]\ncrates-io = \"odd\"\nother = 1\n");
    remove_proxy_config(&mut doc);
    assert_eq!(doc.to_string(), "[source]\ncrates-io = \"odd\"\n");
}

#[test]
fn add_installs_a_mirror_under_its_name() {
    let mut doc = DocumentMut::new();
    assert!(can_install(&doc, "aliyun"));
    add_proxy_config(&mut doc, "aliyun", "https://mirrors.aliyun.com/crates.io-index/");
    assert_eq!(keys_at(&doc, &[]), vec!["source"]);
    assert_eq!(keys_at(&doc, &["source"]), vec!["crates-io", "aliyun"]);
    assert_eq!(
        text_at(&doc, &["source", "crates-io", "replace-with"]),
        Some("aliyun".to_string())
    );
    assert_eq!(
        text_at(&doc, &["source", "aliyun", "registry"]),
        Some("sparse+https://mirrors.aliyun.com/crates.io-index/".to_string())
    );
    assert_eq!(
        doc.to_string(),
        "[source]\n\n[source.crates-io]\nreplace-with = \"aliyun\"\n\n[source.aliyun]\n\
registry = \"sparse+https://mirrors.aliyun.com/crates.io-index/\"\n"
    );
}

#[test]
fn add_ends_the_sparse_address_with_one_slash() {
    for url in ["https://example.com/idx", "https://example.com/idx/", "https://example.com/idx///"] {
        let mut doc = DocumentMut::new();
        add_proxy_config(&mut doc, "custom", url);
        assert_eq!(
            text_at(&doc, &["source", "custom", "registry"]),
            Some("sparse+https://example.com/idx/".to_string())
        );
        assert_eq!(
            text_at(&doc, &["source", "crates-io", "replace-with"]),
            Some("custom".to_string())
        );
    }
}

#[test]
fn add_installs_rsproxy_in_its_own_way() {
    let mut doc = DocumentMut::new();
    assert!(can_install(&doc, "rsproxy"));
    add_proxy_config(&mut doc, "rsproxy", "https://rsproxy.cn/crates.io-index/");
    assert_eq!(keys_at(&doc, &[]), vec!["source", "registries", "net"]);
    assert_eq!(keys_at(&doc, &["source"]), vec!["crates-io", "rsproxy", "rsproxy-sparse"]);
    assert_eq!(
        text_at(&doc, &["source", "crates-io", "replace-with"]),
        Some("rsproxy-sparse".to_string())
    );
    assert_eq!(
        text_at(&doc, &["source", "rsproxy", "registry"]),
        Some("https://rsproxy.cn/crates.io-index".to_string())
    );
    assert_eq!(
        text_at(&doc, &["source", "rsproxy-sparse", "registry"]),
        Some("sparse+https://rsproxy.cn/index/".to_string())
    );
    assert_eq!(
        text_at(&doc, &["registries", "rsproxy", "index"]),
        Some("https://rsproxy.cn/crates.io-index".to_string())
    );
    assert_eq!(doc["net"]["git-fetch-with-cli"].as_bool(), Some(true));
}

#[test]
fn add_of_another_mirror_leaves_net_alone() {
    let text = "[net]\ngit-fetch-with-cli = false\nretry = 2\n";
    let mut doc = parse(text);
    add_proxy_config(&mut doc, "tuna", "https://mirrors.tuna.tsinghua.edu.cn/crates.io-index/");
    assert_eq!(doc["net"]["git-fetch-with-cli"].as_bool(), Some(false));
    assert_eq!(doc["net"]["retry"].as_integer(), Some(2));
    assert!(doc.to_string().starts_with(text));
    let mut doc = DocumentMut::new();
    add_proxy_config(&mut doc, "tuna", "https://mirrors.tuna.tsinghua.edu.cn/crates.io-index/");
    assert!(doc.as_table().get("net").is_none());
    assert!(doc.as_table().get("registries").is_none());
}

#[test]
fn add_uses_the_tables_that_are_there() {
    let mut doc = parse("[source.crates-io]\nlocal = \"kept\"\n\n[net]\nretry = 2\n");
    add_proxy_config(&mut doc, "rsproxy", "https://rsproxy.cn/crates.io-index/");
    assert_eq!(keys_at(&doc, &["source", "crates-io"]), vec!["local", "replace-with"]);
    assert_eq!(keys_at(&doc, &["net"]), vec!["retry", "git-fetch-with-cli"]);
    assert_eq!(doc["net"]["retry"].as_integer(), Some(2));
}

#[test]
fn ensure_table_makes_a_table_once() {
    let mut doc = parse("first = 1\nsecond = 2\n");
    {
        let made = ensure_table(doc.as_item_mut(), "source");
        assert!(made.is_table());
        assert!(made.as_table().map(|t| t.is_empty()).unwrap_or(false));
        made["kept"] = toml_edit::value("yes");
    }
    assert_eq!(keys_at(&doc, &[]), vec!["first", "second", "source"]);
    {
        let again = ensure_table(doc.as_item_mut(), "source");
        assert_eq!(again.as_table().map(|t| t.len()), Some(1));
        assert_eq!(again.get("kept").and_then(|i| i.as_str()), Some("yes"));
        let inner = ensure_table(again, "crates-io");
        assert!(inner.is_table());
    }
    assert_eq!(keys_at(&doc, &[]), vec!["first", "second", "source"]);
    assert_eq!(keys_at(&doc, &["source"]), vec!["kept", "crates-io"]);
    assert_eq!(doc["first"].as_integer(), Some(1));
    assert_eq!(doc["second"].as_integer(), Some(2));
}

#[test]
fn ensure_table_uses_an_inline_table_that_is_there() {
    let mut doc = parse("source = { crates-io = { local = 1 } }\n");
    {
        let source = ensure_table(doc.as_item_mut(), "source");
        assert!(source.is_inline_table());
        let crates_io = ensure_table(source, "crates-io");
        assert!(crates_io.is_inline_table());
        assert_eq!(crates_io.get("local").and_then(|i| i.as_integer()), Some(1));
        let made = ensure_table(source, "ustc");
        assert!(made.is_inline_table());
    }
    assert_eq!(keys_at(&doc, &["source"]), vec!["crates-io", "ustc"]);
}

#[test]
fn ensure_table_fills_a_key_that_holds_none() {
    let mut doc = DocumentMut::new();
    doc.as_table_mut().insert("source", toml_edit::Item::None);
    assert!(can_install(&doc, "ustc"));
    {
        let made = ensure_table(doc.as_item_mut(), "source");
        assert!(made.is_table());
    }
    assert!(doc.as_table().get("source").map(|i| i.is_table()).unwrap_or(false));
}

#[test]
fn add_uses_inline_tables_that_are_there() {
    let mut doc = parse("[source]\ncrates-io = { protocol = 'sparse' }\n");
    assert!(can_install(&doc, "ustc"));
    add_proxy_config(&mut doc, "ustc", "https://mirrors.ustc.edu.cn/crates.io-index/");
    assert!(doc["source"]["crates-io"].is_inline_table());
    assert_eq!(doc["source"]["crates-io"]["protocol"].as_str(), Some("sparse"));
    assert_eq!(doc["source"]["crates-io"]["replace-with"].as_str(), Some("ustc"));
    assert_eq!(
        text_at(&doc, &["source", "ustc", "registry"]),
        Some("sparse+https://mirrors.ustc.edu.cn/crates.io-index/".to_string())
    );
    assert!(doc["source"]["ustc"].is_table());
    let mut doc = parse("source = { crates-io = { protocol = 'sparse' } }\nnet = { retry = 2 }\n");
    assert!(can_install(&doc, "rsproxy"));
    add_proxy_config(&mut doc, "rsproxy", "https://rsproxy.cn/crates.io-index/");
    assert!(doc["source"]["rsproxy"].is_inline_table());
    assert_eq!(keys_at(&doc, &["source"]), vec!["crates-io", "rsproxy", "rsproxy-sparse"]);
    assert_eq!(keys_at(&doc, &["net"]), vec!["retry", "git-fetch-with-cli"]);
    assert_eq!(doc["net"]["git-fetch-with-cli"].as_bool(), Some(true));
    assert_eq!(
        text_at(&doc, &["source", "crates-io", "replace-with"]),
        Some("rsproxy-sparse".to_string())
    );
    let written = doc.to_string();
    let again = parse(&written);
    assert_eq!(
        text_at(&again, &["source", "rsproxy-sparse", "registry"]),
        Some("sparse+https://rsproxy.cn/index/".to_string())
    );
    assert_eq!(text_at(&again, &["registries", "rsproxy", "index"]),
        Some("https://rsproxy.cn/crates.io-index".to_string()));
}

#[test]
fn can_install_wants_tables_or_nothing() {
    assert!(can_install(&parse(WITH_USTC), "ustc"));
    assert!(can_install(&parse(WITH_USTC), "rsproxy"));
    assert!(!can_install(&parse("source = 1\n"), "ustc"));
    assert!(can_install(&parse("source = { crates-io = { replace-with = \"x\" } }\n"), "ustc"));
    assert!(can_install(&parse("[source]\ncrates-io = { a = 1 }\n"), "rsproxy"));
    assert!(!can_install(&parse("source = { crates-io = 1 }\n"), "ustc"));
    assert!(!can_install(&parse("source = [1]\n"), "ustc"));
    assert!(!can_install(&parse("[source]\ncrates-io = 1\n"), "ustc"));
    assert!(!can_install(&parse("[source]\nustc = \"x\"\n"), "ustc"));
    assert!(can_install(&parse("[source]\nustc = \"x\"\n"), "tuna"));
    assert!(can_install(&parse("registries = 1\nnet = 2\n"), "ustc"));
    assert!(!can_install(&parse("registries = 1\n"), "rsproxy"));
    assert!(!can_install(&parse("net = 2\n"), "rsproxy"));
    assert!(!can_install(&parse("[registries]\nrsproxy = 2\n"), "rsproxy"));
    assert!(!can_install(&parse("[source]\nrsproxy-sparse = 2\n"), "rsproxy"));
    let mut rootless = DocumentMut::new();
    *rootless.as_item_mut() = toml_edit::value(1);
    assert!(!can_install(&rootless, "ustc"));
}

#[test]
fn apply_replaces_the_mirror_that_was_set() {
    let mut doc = parse(WITH_USTC);
    let proxy = ResolvedProxy {
        name: "tuna".to_string(),
        url: "https://mirrors.tuna.tsinghua.edu.cn/crates.io-index/".to_string(),
    };
    assert!(apply(&mut doc, &proxy).is_ok());
    assert_eq!(keys_at(&doc, &["source"]), vec!["crates-io", "tuna"]);
    assert_eq!(keys_at(&doc, &["source", "crates-io"]), vec!["local", "replace-with"]);
    assert_eq!(
        text_at(&doc, &["source", "crates-io", "replace-with"]),
        Some("tuna".to_string())
    );
    assert_eq!(keys_at(&doc, &["net"]), vec!["retry"]);
    assert_eq!(keys_at(&doc, &["registries"]), Vec::<String>::new());
    assert!(doc.to_string().starts_with("# my settings\n[build]\njobs = 4 # not too many\n"));
}

#[test]
fn apply_clears_a_value_that_stood_under_the_name() {
    let mut doc = parse("[source]\nustc = \"x\"\n");
    let proxy = ResolvedProxy {
        name: "ustc".to_string(),
        url: "https://mirrors.ustc.edu.cn/crates.io-index/".to_string(),
    };
    assert!(apply(&mut doc, &proxy).is_ok());
    assert_eq!(
        text_at(&doc, &["source", "ustc", "registry"]),
        Some("sparse+https://mirrors.ustc.edu.cn/crates.io-index/".to_string())
    );
}

#[test]
fn apply_replaces_no_value_by_a_table() {
    let proxy = ResolvedProxy {
        name: "rsproxy".to_string(),
        url: "https://rsproxy.cn/crates.io-index/".to_string(),
    };
    for text in ["source = 1\n", "[source]\ncrates-io = \"odd\"\n", "registries = 1\n", "net = 1\n"] {
        let mut doc = parse(text);
        assert!(apply(&mut doc, &proxy).is_err());
        assert_eq!(doc.to_string(), text);
    }
    let mut doc = parse("net = 1\n[source.old]\nregistry = \"x\"\n");
    assert!(apply(&mut doc, &proxy).is_err());
    assert_eq!(keys_at(&doc, &["source"]), Vec::<String>::new());
}

#[test]
fn what_stays_keeps_its_place_and_its_comments() {
    let text = "# first\na = 1\n# second\nb = \"two\" # kept\n\n\
[net]\n# before\nfirst = 1\ngit-fetch-with-cli = true\n# after\nlast = 2\n\n\
[source.old]\nregistry = \"x\"\n\n\
# about the build\n[build]\njobs = 4\n";
    let mut doc = parse(text);
    remove_proxy_config(&mut doc);
    assert_eq!(keys_at(&doc, &[]), vec!["a", "b", "net", "source", "build"]);
    assert_eq!(keys_at(&doc, &["net"]), vec!["first", "last"]);
    assert_eq!(
        doc.to_string(),
        "# first\na = 1\n# second\nb = \"two\" # kept\n\n\
[net]\n# before\nfirst = 1\n# after\nlast = 2\n\n\
# about the build\n[build]\njobs = 4\n"
    );
    add_proxy_config(&mut doc, "rsproxy", "https://rsproxy.cn/crates.io-index/");
    assert_eq!(keys_at(&doc, &[]), vec!["a", "b", "net", "source", "build", "registries"]);
    assert_eq!(keys_at(&doc, &["net"]), vec!["first", "last", "git-fetch-with-cli"]);
    let written = doc.to_string();
    assert!(written.starts_with(
        "# first\na = 1\n# second\nb = \"two\" # kept\n\n\
[net]\n# before\nfirst = 1\n# after\nlast = 2\ngit-fetch-with-cli = true\n"
    ));
    assert!(written.contains("# about the build\n[build]\njobs = 4\n"));
}
