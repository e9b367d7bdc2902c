use cargo_proxy::commands::{show_line, CLEARED, NOTHING_TO_CLEAR, NO_PROXY_SET};
use cargo_proxy::{
    clear_proxy, install_proxy, load_document, predefined_proxies, set_proxy, show_proxy,
    NotATable, ResolvedProxy, SetError,
};

fn set(existing: Option<&str>, proxy: &str) -> String {
    match set_proxy(existing, proxy) {
        Ok(out) => out,
        Err(_) => panic!("{} was not set", proxy),
    }
}

const OTHER: &str = "# build settings\n[build]\njobs = 4 # not too many\n\n[http]\ncheck-revoke = false\n";

#[test]
fn show_without_a_file() {
    assert_eq!(show_proxy(None), "No proxy is currently set.");
    assert_eq!(show_proxy(Some("")), "No proxy is currently set.");
    assert_eq!(show_proxy(Some(OTHER)), NO_PROXY_SET);
}

#[test]
fn show_line_names_the_mirror() {
    assert_eq!(show_line(Some("tuna")), "Current proxy: tuna");
    assert_eq!(show_line(Some("")), "Current proxy: ");
    assert_eq!(show_line(None), "No proxy is currently set.");
}

#[test]
fn set_then_show_names_the_mirror() {
    for name in ["ustc", "tuna", "aliyun"] {
        let written = set(None, name);
        assert_eq!(show_proxy(Some(&written)), format!("Current proxy: {}", name));
        let written = set(Some(OTHER), name);
        assert_eq!(show_proxy(Some(&written)), format!("Current proxy: {}", name));
    }
    let written = set(None, "Aliyun");
    assert_eq!(show_proxy(Some(&written)), "Current proxy: aliyun");
}

#[test]
fn set_then_show_for_rsproxy_gives_its_address() {
    let written = set(None, "rsproxy");
    assert_eq!(show_proxy(Some(&written)), "Current proxy: https://rsproxy.cn/crates.io-index");
}

#[test]
fn set_then_show_for_an_address_gives_the_stored_address() {
    let written = set(None, "https://example.com/my-index/");
    assert!(written.contains("replace-with = \"custom\""));
    assert!(written.contains("registry = \"sparse+https://example.com/my-index/\""));
    assert_eq!(
        show_proxy(Some(&written)),
        "Current proxy: sparse+https://example.com/my-index/"
    );
}

#[test]
fn set_after_set_leaves_one_mirror() {
    let first = set(Some(OTHER), "rsproxy");
    let second = set(Some(&first), "tuna");
    assert_eq!(show_proxy(Some(&second)), "Current proxy: tuna");
    assert!(!second.contains("rsproxy"));
    assert!(!second.contains("git-fetch-with-cli"));
    assert!(second.starts_with(OTHER));
}

#[test]
fn set_writes_the_whole_configuration() {
    assert_eq!(
        set(None, "ustc"),
        "[source]\n\n[source.crates-io]\nreplace-with = \"ustc\"\n\n[source.ustc]\n\
registry = \"sparse+https://mirrors.ustc.edu.cn/crates.io-index/\"\n"
    );
}

#[test]
fn set_unknown_is_refused() {
    match set_proxy(Some(OTHER), "notaproxy") {
        Err(SetError::UnknownProxy(unknown)) => {
            let message = unknown.message();
            for (name, _) in predefined_proxies() {
                assert!(message.contains(name));
            }
        }
        _ => panic!("notaproxy was not refused"),
    }
}

#[test]
fn set_rsproxy_sets_git_fetch_and_aliyun_does_not() {
    let written = set(None, "rsproxy");
    assert!(written.contains("[source.rsproxy]\n"));
    assert!(written.contains("[source.rsproxy-sparse]\n"));
    assert!(written.contains("[registries.rsproxy]\n"));
    assert!(written.contains("[net]\ngit-fetch-with-cli = true\n"));
    let written = set(None, "aliyun");
    assert!(!written.contains("net"));
    assert!(!written.contains("git-fetch-with-cli"));
    let written = set(Some("[net]\nretry = 2\n"), "aliyun");
    assert!(written.starts_with("[net]\nretry = 2\n"));
    assert!(!written.contains("git-fetch-with-cli"));
}

#[test]
fn set_keeps_what_is_not_of_a_mirror() {
    for name in ["rsproxy", "ustc", "https://example.com/i"] {
        let written = set(Some(OTHER), name);
        assert!(written.starts_with(OTHER));
    }
}

#[test]
fn set_where_a_value_is_in_the_way() {
    match set_proxy(Some("source = 1\n"), "ustc") {
        Err(SetError::NotATable) => {}
        _ => panic!("a value was replaced by a table"),
    }
    let proxy = ResolvedProxy { name: "custom".to_string(), url: "https://x/".to_string() };
    assert_eq!(install_proxy(Some("[source]\ncrates-io = 1\n"), &proxy), Err(NotATable));
}

#[test]
fn clear_without_a_file_writes_nothing() {
    assert_eq!(clear_proxy(None), None);
    assert_eq!(NOTHING_TO_CLEAR, "No configuration file found. Nothing to clear.");
    assert_eq!(CLEARED, "Proxy configuration has been successfully cleared.");
}

#[test]
fn clear_after_set_shows_no_mirror() {
    for name in ["rsproxy", "ustc", "tuna", "aliyun", "http://example.com/"] {
        let written = set(Some(OTHER), name);
        let cleared = match clear_proxy(Some(&written)) {
            Some(text) => text,
            None => panic!("nothing was written"),
        };
        assert_eq!(show_proxy(Some(&cleared)), "No proxy is currently set.");
        assert!(cleared.starts_with(OTHER));
        assert!(!cleared.contains("replace-with"));
        assert!(!cleared.contains("registry"));
        assert!(!cleared.contains("git-fetch-with-cli"));
        assert_eq!(clear_proxy(Some(&cleared)), Some(cleared.clone()));
    }
}

#[test]
fn clear_of_an_empty_file_writes_an_empty_file() {
    assert_eq!(clear_proxy(Some("")), Some(String::new()));
    assert_eq!(clear_proxy(Some(OTHER)), Some(OTHER.to_string()));
}

#[test]
fn text_that_is_no_toml_counts_as_empty() {
    let broken = "this is = = not toml [";
    assert_eq!(load_document(Some(broken)).to_string(), "");
    assert_eq!(load_document(None).to_string(), "");
    assert_eq!(load_document(Some(OTHER)).to_string(), OTHER);
    assert_eq!(show_proxy(Some(broken)), "No proxy is currently set.");
    assert_eq!(clear_proxy(Some(broken)), Some(String::new()));
    assert_eq!(set(Some(broken), "ustc"), set(None, "ustc"));
}

#[test]
fn dotted_keys_are_tables_too() {
    let dotted = "source.crates-io.replace-with = \"tuna\"\n\
source.tuna.registry = \"sparse+https://mirrors.tuna.tsinghua.edu.cn/crates.io-index/\"\n\
net.git-fetch-with-cli = true\nnet.retry = 2\n";
    assert_eq!(show_proxy(Some(dotted)), "Current proxy: tuna");
    assert_eq!(clear_proxy(Some(dotted)), Some("net.retry = 2\n".to_string()));
    let written = set(Some(dotted), "ustc");
    assert_eq!(show_proxy(Some(&written)), "Current proxy: ustc");
    assert!(!written.contains("tuna"));
    assert!(written.contains("net.retry = 2\n"));
}

#[test]
fn arrays_of_tables_are_no_tables() {
    let arrays = "[[source]]\nname = \"a\"\n\n[[registries]]\nname = \"b\"\n";
    assert_eq!(show_proxy(Some(arrays)), "No proxy is currently set.");
    assert_eq!(clear_proxy(Some(arrays)), Some(arrays.to_string()));
    assert_eq!(set_proxy(Some(arrays), "ustc"), Err(SetError::NotATable));
    let registries = "[[registries]]\nname = \"b\"\n";
    assert_eq!(set_proxy(Some(registries), "rsproxy"), Err(SetError::NotATable));
    let written = set(Some(registries), "ustc");
    assert!(written.starts_with(registries));
    assert_eq!(show_proxy(Some(&written)), "Current proxy: ustc");
}

#[test]
fn set_succeeds_where_crates_io_is_an_inline_table() {
    let existing = "[source]\ncrates-io = { replace-with = 'ustc', protocol = 'sparse' }\n";
    assert_eq!(show_proxy(Some(existing)), "No proxy is currently set.");
    let written = set(Some(existing), "tuna");
    assert_eq!(show_proxy(Some(&written)), "Current proxy: tuna");
    assert!(written.contains("protocol = 'sparse'"));
    assert!(!written.contains("ustc"));
    let cleared = match clear_proxy(Some(&written)) {
        Some(text) => text,
        None => panic!("nothing was written"),
    };
    assert_eq!(cleared, "[source]\ncrates-io = { protocol = 'sparse' }\n");
    let inline = "source = { crates-io = { replace-with = \"ustc\" }, ustc = { registry = \"r\" } }\n";
    assert_eq!(show_proxy(Some(inline)), "Current proxy: ustc");
    for name in ["rsproxy", "aliyun", "https://example.com/i/"] {
        let written = set(Some(inline), name);
        assert!(!written.contains("ustc"));
        assert!(show_proxy(Some(&written)).starts_with("Current proxy: "));
    }
}
