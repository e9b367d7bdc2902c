//! The mirrors that are known by name, and how a request for one is
//! resolved.

use vstd::prelude::*;
use vstd::string::*;
use crate::text::{same_text, starts_with, to_lowercase, lowercase};

verus! {

/// The known mirrors, each a name and the address of its index.
pub open spec fn known_proxies() -> Seq<(Seq<char>, Seq<char>)> {
    seq![
        ("rsproxy"@, "https://rsproxy.cn/crates.io-index/"@),
        ("ustc"@, "https://mirrors.ustc.edu.cn/crates.io-index/"@),
        ("tuna"@, "https://mirrors.tuna.tsinghua.edu.cn/crates.io-index/"@),
        ("aliyun"@, "https://mirrors.aliyun.com/crates.io-index/"@),
    ]
}

/// What is known of the texts of the known mirrors: how long each is, and
/// how each begins.
pub(crate) proof fn lemma_known_proxies()
    ensures
        known_proxies().len() == 4,
        known_proxies()[0].0 == "rsproxy"@ && known_proxies()[0].0.len() == 7,
        known_proxies()[1].0 == "ustc"@ && known_proxies()[1].0.len() == 4,
        known_proxies()[2].0 == "tuna"@ && known_proxies()[2].0.len() == 4,
        known_proxies()[3].0 == "aliyun"@ && known_proxies()[3].0.len() == 6,
        known_proxies()[1].0[0] == 'u',
        known_proxies()[2].0[0] == 't',
        known_proxies()[3].0[0] == 'a',
        known_proxies()[0].1.len() == 35,
        known_proxies()[1].1.len() == 44,
        known_proxies()[2].1.len() == 53,
        known_proxies()[3].1.len() == 43,
        forall|i: int| 0 <= i < 4 ==> (#[trigger] known_proxies()[i]).1[0] == 'h',
{
    reveal_strlit("rsproxy");
    reveal_strlit("ustc");
    reveal_strlit("tuna");
    reveal_strlit("aliyun");
    reveal_strlit("https://rsproxy.cn/crates.io-index/");
    reveal_strlit("https://mirrors.ustc.edu.cn/crates.io-index/");
    reveal_strlit("https://mirrors.tuna.tsinghua.edu.cn/crates.io-index/");
    reveal_strlit("https://mirrors.aliyun.com/crates.io-index/");
    assert("rsproxy"@.len() == 7);
    assert("ustc"@.len() == 4 && "ustc"@[0] == 'u');
    assert("tuna"@.len() == 4 && "tuna"@[0] == 't');
    assert("aliyun"@.len() == 6 && "aliyun"@[0] == 'a');
    assert("https://rsproxy.cn/crates.io-index/"@.len() == 35);
    assert("https://mirrors.ustc.edu.cn/crates.io-index/"@.len() == 44);
    assert("https://mirrors.tuna.tsinghua.edu.cn/crates.io-index/"@.len() == 53);
    assert("https://mirrors.aliyun.com/crates.io-index/"@.len() == 43);
    assert("https://rsproxy.cn/crates.io-index/"@[0] == 'h');
    assert("https://mirrors.ustc.edu.cn/crates.io-index/"@[0] == 'h');
    assert("https://mirrors.tuna.tsinghua.edu.cn/crates.io-index/"@[0] == 'h');
    assert("https://mirrors.aliyun.com/crates.io-index/"@[0] == 'h');
}

/// The names of the known mirrors, in their order.
pub open spec fn known_names() -> Seq<Seq<char>> {
    Seq::new(known_proxies().len(), |i: int| known_proxies()[i].0)
}

/// What a list of mirrors is, as texts.
pub open spec fn proxies_view(v: Seq<(&'static str, &'static str)>) -> Seq<(Seq<char>, Seq<char>)> {
    Seq::new(v.len(), |i: int| (v[i].0@, v[i].1@))
}

/// What a list of names is, as texts.
pub open spec fn names_view(v: Seq<String>) -> Seq<Seq<char>> {
    Seq::new(v.len(), |i: int| v[i]@)
}

/// The known mirrors.
pub fn predefined_proxies() -> (r: Vec<(&'static str, &'static str)>)
    ensures
        proxies_view(r@) == known_proxies(),
{
    let r = vec![
        ("rsproxy", "https://rsproxy.cn/crates.io-index/"),
        ("ustc", "https://mirrors.ustc.edu.cn/crates.io-index/"),
        ("tuna", "https://mirrors.tuna.tsinghua.edu.cn/crates.io-index/"),
        ("aliyun", "https://mirrors.aliyun.com/crates.io-index/"),
    ];
    assert(proxies_view(r@) =~= known_proxies());
    r
}

/// Whether a mirror is the one looked for: by its name, where a name is
/// given, or by its address, where an address is given.
pub open spec fn is_wanted(
    entry: (Seq<char>, Seq<char>),
    name: Option<Seq<char>>,
    url: Option<Seq<char>>,
) -> bool {
    name == Some(entry.0) || url == Some(entry.1)
}

/// The first known mirror, from place `from` on, that is the one looked for.
pub open spec fn first_wanted(name: Option<Seq<char>>, url: Option<Seq<char>>, from: int) -> Option<
    (Seq<char>, Seq<char>),
>
    decreases known_proxies().len() - from,
{
    if from < 0 || from >= known_proxies().len() {
        None
    } else if is_wanted(known_proxies()[from], name, url) {
        Some(known_proxies()[from])
    } else {
        first_wanted(name, url, from + 1)
    }
}

/// The text of an optional text.
pub open spec fn text_view(o: Option<&str>) -> Option<Seq<char>> {
    match o {
        Some(s) => Some(s@),
        None => None,
    }
}

/// Looks a mirror up among the known ones, by name, by address, or by
/// either; the first that fits is returned.
pub fn find_proxy(name: Option<&str>, url: Option<&str>) -> (r: Option<
    (&'static str, &'static str),
>)
    ensures
        match r {
            Some(e) => first_wanted(text_view(name), text_view(url), 0) == Some((e.0@, e.1@)),
            None => first_wanted(text_view(name), text_view(url), 0) is None,
        },
{
    let all = predefined_proxies();
    let mut i: usize = 0;
    while i < all.len()
        invariant
            i <= all.len(),
            proxies_view(all@) == known_proxies(),
            first_wanted(text_view(name), text_view(url), 0) == first_wanted(
                text_view(name),
                text_view(url),
                i as int,
            ),
        decreases all.len() - i,
    {
        let (n, u) = all[i];
        assert(known_proxies()[i as int] == proxies_view(all@)[i as int]);
        let by_name = match name {
            Some(wanted) => same_text(n, wanted),
            None => false,
        };
        let by_url = match url {
            Some(wanted) => same_text(u, wanted),
            None => false,
        };
        if by_name || by_url {
            return Some((n, u));
        }
        i = i + 1;
    }
    None
}

/// A mirror to install: its name and the address of its index.
#[derive(Debug, PartialEq, Eq)]
pub struct ResolvedProxy {
    pub name: String,
    pub url: String,
}

impl View for ResolvedProxy {
    type V = (Seq<char>, Seq<char>);

    open spec fn view(&self) -> (Seq<char>, Seq<char>) {
        (self.name@, self.url@)
    }
}

/// A request that names no known mirror and gives no address. It carries
/// the names that would have been accepted.
#[derive(Debug, PartialEq, Eq)]
pub struct UnknownProxy {
    pub known: Vec<String>,
}

/// One line for each name: two spaces, a hyphen, a space, and the name.
pub open spec fn name_lines(names: Seq<Seq<char>>) -> Seq<char>
    decreases names.len(),
{
    if names.len() == 0 {
        Seq::empty()
    } else {
        name_lines(names.drop_last()) + "  - "@ + names.last() + "\n"@
    }
}

/// What is said of a request that was refused, with the names that would
/// have been accepted.
pub open spec fn refusal(names: Seq<Seq<char>>) -> Seq<char> {
    "Error: Unknown proxy name or invalid URL.\n"@ + "Available predefined proxy names:\n"@
        + name_lines(names) + "Or provide a custom URL starting with http:// or https://.\n"@
}

impl UnknownProxy {
    /// What to tell the user: that the request was refused, the names of the
    /// known mirrors, and that an address is accepted too.
    pub fn message(&self) -> (r: String)
        ensures
            r@ == refusal(names_view(self.known@)),
    {
        let mut out = "Error: Unknown proxy name or invalid URL.\n".to_owned();
        out.append("Available predefined proxy names:\n");
        let ghost head = out@;
        let mut i: usize = 0;
        while i < self.known.len()
            invariant
                i <= self.known.len(),
                out@ == head + name_lines(names_view(self.known@).take(i as int)),
            decreases self.known.len() - i,
        {
            let ghost names = names_view(self.known@);
            let ghost lines = name_lines(names.take(i as int));
            out.append("  - ");
            out.append(self.known[i].as_str());
            out.append("\n");
            proof {
                assert(names.take(i + 1).drop_last() =~= names.take(i as int));
                assert(names.take(i + 1).last() == self.known@[i as int]@);
                assert(out@ =~= head + (lines + "  - "@ + self.known@[i as int]@ + "\n"@));
            }
            i = i + 1;
        }
        assert(names_view(self.known@).take(i as int) =~= names_view(self.known@));
        out.append("Or provide a custom URL starting with http:// or https://.\n");
        out
    }
}

/// Whether a text is an address: it begins with `http://` or `https://`.
pub open spec fn is_url(s: Seq<char>) -> bool {
    "http://"@.is_prefix_of(s) || "https://"@.is_prefix_of(s)
}

/// The mirror that a request stands for, from the request and its lowercase
/// form: the known mirror of that name; else, for an address, the mirror
/// `custom` at that address; else none.
pub open spec fn resolution(lowered: Seq<char>, input: Seq<char>) -> Option<
    (Seq<char>, Seq<char>),
> {
    match first_wanted(Some(lowered), None, 0) {
        Some(e) => Some(e),
        None => if is_url(input) {
            Some(("custom"@, input))
        } else {
            None
        },
    }
}

/// The names of the known mirrors.
pub fn predefined_names() -> (r: Vec<String>)
    ensures
        names_view(r@) == known_names(),
{
    let all = predefined_proxies();
    let mut names: Vec<String> = Vec::new();
    let mut i: usize = 0;
    while i < all.len()
        invariant
            i <= all.len(),
            proxies_view(all@) == known_proxies(),
            names@.len() == i,
            forall|j: int| 0 <= j < i ==> names@[j]@ == known_proxies()[j].0,
        decreases all.len() - i,
    {
        let (n, _) = all[i];
        assert(known_proxies()[i as int] == proxies_view(all@)[i as int]);
        names.push(n.to_owned());
        i = i + 1;
    }
    assert(proxies_view(all@).len() == all@.len());
    assert(names_view(names@) =~= known_names());
    names
}

/// Resolves a request whose lowercase form is already at hand.
pub fn resolve_lowered(lowered: &str, input: &str) -> (r: Result<ResolvedProxy, UnknownProxy>)
    ensures
        match r {
            Ok(p) => resolution(lowered@, input@) == Some(p@),
            Err(e) => resolution(lowered@, input@) is None && names_view(e.known@)
                == known_names(),
        },
{
    match find_proxy(Some(lowered), None) {
        Some((name, url)) => Ok(ResolvedProxy { name: name.to_owned(), url: url.to_owned() }),
        None => {
            if starts_with(input, "http://") || starts_with(input, "https://") {
                Ok(ResolvedProxy { name: "custom".to_owned(), url: input.to_owned() })
            } else {
                Err(UnknownProxy { known: predefined_names() })
            }
        },
    }
}

/// Resolves a request: the name of a known mirror, in any case of letters,
/// or an address that begins with `http://` or `https://`. Anything else is
/// refused.
pub fn resolve(input: &str) -> (r: Result<ResolvedProxy, UnknownProxy>)
    ensures
        match r {
            Ok(p) => resolution(lowercase(input@), input@) == Some(p@),
            Err(e) => resolution(lowercase(input@), input@) is None && names_view(e.known@)
                == known_names(),
        },
{
    let lowered = to_lowercase(input);
    resolve_lowered(lowered.as_str(), input)
}

} // verus!
