//! The keys and values that the library writes and reads.

use vstd::prelude::*;

verus! {

pub const SOURCE: &'static str = "source";

pub const CRATES_IO: &'static str = "crates-io";

pub const REPLACE_WITH: &'static str = "replace-with";

pub const REGISTRY: &'static str = "registry";

pub const REGISTRIES: &'static str = "registries";

pub const INDEX: &'static str = "index";

pub const NET: &'static str = "net";

pub const GIT_FETCH_WITH_CLI: &'static str = "git-fetch-with-cli";

/// The mirror that is installed in a way of its own.
pub const RSPROXY: &'static str = "rsproxy";

/// The source that stands in for crates.io where `rsproxy` is installed.
pub const RSPROXY_SPARSE: &'static str = "rsproxy-sparse";

/// The name under which an address that is no known mirror is installed.
pub const CUSTOM: &'static str = "custom";

pub const RSPROXY_INDEX: &'static str = "https://rsproxy.cn/crates.io-index";

pub const RSPROXY_SPARSE_INDEX: &'static str = "sparse+https://rsproxy.cn/index/";

pub const SPARSE_PREFIX: &'static str = "sparse+";

/// The keys under the root that belong to a mirror are three different keys.
pub(crate) proof fn lemma_root_keys_differ()
    ensures
        SOURCE@ != REGISTRIES@,
        SOURCE@ != NET@,
        REGISTRIES@ != NET@,
{
    reveal_strlit("source");
    reveal_strlit("registries");
    reveal_strlit("net");
    assert(SOURCE@.len() == 6);
    assert(REGISTRIES@.len() == 10);
    assert(NET@.len() == 3);
}

/// What is known of the texts above: how long each is, and how some begin.
pub(crate) proof fn lemma_key_texts()
    ensures
        SOURCE@.len() == 6,
        CRATES_IO@.len() == 9,
        REPLACE_WITH@.len() == 12,
        REGISTRY@.len() == 8,
        REGISTRIES@.len() == 10,
        INDEX@.len() == 5,
        NET@.len() == 3,
        GIT_FETCH_WITH_CLI@.len() == 18,
        RSPROXY@.len() == 7,
        RSPROXY_SPARSE@.len() == 14,
        CUSTOM@.len() == 6 && CUSTOM@[0] == 'c',
        RSPROXY_INDEX@.len() == 34,
        RSPROXY_SPARSE_INDEX@.len() == 32,
        SPARSE_PREFIX@.len() == 7 && SPARSE_PREFIX@[0] == 's',
{
    reveal_strlit("source");
    reveal_strlit("crates-io");
    reveal_strlit("replace-with");
    reveal_strlit("registry");
    reveal_strlit("registries");
    reveal_strlit("index");
    reveal_strlit("net");
    reveal_strlit("git-fetch-with-cli");
    reveal_strlit("rsproxy");
    reveal_strlit("rsproxy-sparse");
    reveal_strlit("custom");
    reveal_strlit("https://rsproxy.cn/crates.io-index");
    reveal_strlit("sparse+https://rsproxy.cn/index/");
    reveal_strlit("sparse+");
    assert(SOURCE@.len() == 6);
    assert(CRATES_IO@.len() == 9);
    assert(REPLACE_WITH@.len() == 12);
    assert(REGISTRY@.len() == 8);
    assert(REGISTRIES@.len() == 10);
    assert(INDEX@.len() == 5);
    assert(NET@.len() == 3);
    assert(GIT_FETCH_WITH_CLI@.len() == 18);
    assert(RSPROXY@.len() == 7);
    assert(RSPROXY_SPARSE@.len() == 14);
    assert(CUSTOM@.len() == 6 && CUSTOM@[0] == 'c');
    assert(RSPROXY_INDEX@.len() == 34);
    assert(RSPROXY_SPARSE_INDEX@.len() == 32);
    assert(SPARSE_PREFIX@.len() == 7 && SPARSE_PREFIX@[0] == 's');
}

} // verus!
