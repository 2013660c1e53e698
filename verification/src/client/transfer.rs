//! One client of a server: the paths that it maps, its requests, and what it
//! makes of the replies.

use crate::client::config::Mode;
use crate::text;
use vstd::prelude::*;
use vstd::string::*;

verus! {

/// A client of the server at `server_url`.
#[derive(Clone)]
pub struct FileTransferClient {
    pub server_url: String,
    /// The source and the target of the mapping of paths.
    pub remap: Option<(String, String)>,
    /// Whether the server's certificate goes unchecked.
    pub accept_invalid_certs: bool,
}

/// Whether the one colon of `s` stands at `i`.
pub open spec fn only_colon(s: Seq<char>, i: int) -> bool {
    &&& 0 <= i < s.len()
    &&& s[i] == ':'
    &&& forall|j: int| 0 <= j < s.len() && j != i ==> #[trigger] s[j] != ':'
}

/// The source and the target that `s` gives in the form `source:target`. Both are
/// empty if `s` does not hold exactly one colon.
pub open spec fn remap_pair(s: Seq<char>) -> (Seq<char>, Seq<char>) {
    if exists|i: int| only_colon(s, i) {
        let i = choose|i: int| only_colon(s, i);
        (s.take(i), s.skip(i + 1))
    } else {
        (Seq::empty(), Seq::empty())
    }
}

/// `path` as the mapping says: a pull puts the target in place of a leading
/// source, a push puts the source in place of a leading target. A mapping with an
/// empty side maps nothing.
pub open spec fn remapped(
    remap: Option<(Seq<char>, Seq<char>)>,
    path: Seq<char>,
    mode: Mode,
) -> Seq<char> {
    match remap {
        Some((source, target)) => {
            let (from, to) = match mode {
                Mode::Pull => (source, target),
                Mode::Push => (target, source),
            };
            if source.len() > 0 && target.len() > 0 && from.is_prefix_of(path) {
                to + path.skip(from.len() as int)
            } else {
                path
            }
        },
        None => path,
    }
}

/// The two sides of a mapping in the form `source:target`, both empty if that is
/// not its form.
pub fn parse_remap(remap: &str) -> (r: (String, String))
    ensures
        (r.0@, r.1@) == remap_pair(remap@),
{
    let mut source = String::new();
    let mut target = String::new();
    let mut met = false;
    let ghost mut at: int = 0;
    for c in it: remap.chars()
        invariant
            it.seq() == remap@,
            it.index() <= remap@.len(),
            !met ==> {
                &&& source@ == remap@.take(it.index() as int)
                &&& forall|j: int| 0 <= j < it.index() ==> #[trigger] remap@[j] != ':'
            },
            met ==> {
                &&& 0 <= at < it.index()
                &&& remap@[at] == ':'
                &&& source@ == remap@.take(at)
                &&& target@ == remap@.subrange(at + 1, it.index() as int)
                &&& forall|j: int| 0 <= j < it.index() && j != at ==> #[trigger] remap@[j] != ':'
            },
            !met ==> target@.len() == 0,
    {
        let ghost i = it.index() as int;
        if c == ':' {
            if met {
                proof {
                    assert forall|k: int| !only_colon(remap@, k) by {
                        if only_colon(remap@, k) {
                            assert(remap@[at] == ':');
                            assert(remap@[i] == ':');
                        }
                    }
                }
                return (String::new(), String::new());
            }
            met = true;
            proof {
                at = i;
            }
            assert(target@ =~= remap@.subrange(at + 1, i + 1));
        } else if met {
            target.push(c);
            assert(target@ =~= remap@.subrange(at + 1, i + 1));
        } else {
            source.push(c);
            assert(source@ =~= remap@.take(i + 1));
        }
    }
    if met {
        proof {
            assert(only_colon(remap@, at));
            let i = choose|i: int| only_colon(remap@, i);
            assert(remap@[i] == ':');
            assert(i == at);
            assert(target@ =~= remap@.skip(at + 1));
        }
        (source, target)
    } else {
        assert forall|k: int| !only_colon(remap@, k) by {
            if only_colon(remap@, k) {
                assert(remap@[k] == ':');
            }
        }
        (String::new(), String::new())
    }
}

impl FileTransferClient {
    /// The mapping of paths in terms of plain values.
    pub open spec fn remapping(&self) -> Option<(Seq<char>, Seq<char>)> {
        match self.remap {
            Some((source, target)) => Some((source@, target@)),
            None => None,
        }
    }

    /// A client that checks the server's certificate.
    pub fn new(server_url: String, remap: Option<String>) -> (r: Self)
        ensures
            r.server_url == server_url,
            r.remapping() == (match remap {
                Some(s) => Some(remap_pair(s@)),
                None => None,
            }),
            !r.accept_invalid_certs,
    {
        FileTransferClient::new_with_tls(server_url, remap, false)
    }

    /// A client that takes any certificate of the server if it uses TLS.
    pub fn new_with_tls(server_url: String, remap: Option<String>, use_tls: bool) -> (r: Self)
        ensures
            r.server_url == server_url,
            r.remapping() == (match remap {
                Some(s) => Some(remap_pair(s@)),
                None => None,
            }),
            r.accept_invalid_certs == use_tls,
    {
        let remap = match remap {
            Some(s) => Some(parse_remap(s.as_str())),
            None => None,
        };
        FileTransferClient { server_url, remap, accept_invalid_certs: use_tls }
    }

    /// `path` on the other side of a transfer.
    pub fn apply_remap(&self, path: &str, mode: Mode) -> (r: String)
        ensures
            r@ == remapped(self.remapping(), path@, mode),
    {
        match &self.remap {
            Some((source, target)) => {
                if source.as_str().is_empty() || target.as_str().is_empty() {
                    return path.to_owned();
                }
                let (from, to) = match mode {
                    Mode::Pull => (source, target),
                    Mode::Push => (target, source),
                };
                match text::strip_prefix(path, from.as_str()) {
                    Some(rest) => {
                        let mut mapped = to.clone();
                        mapped.append(rest.as_str());
                        mapped
                    },
                    None => path.to_owned(),
                }
            },
            None => path.to_owned(),
        }
    }

    fn url(&self, route: &str) -> (r: String)
        ensures
            r@ == self.server_url@ + route@,
    {
        let mut url = self.server_url.clone();
        url.append(route);
        url
    }

    /// Where the next file to transfer is asked for.
    pub fn grab_work_url(&self) -> (r: String)
        ensures
            r@ == self.server_url@ + "/grab_work"@,
    {
        self.url("/grab_work")
    }

    /// Where a file is sent that is to be stored as the mapping of `remote_path`
    /// for a push.
    pub fn upload_url(&self, remote_path: &str) -> (r: String)
        ensures
            r@ == self.server_url@ + "/upload_file/"@ + remapped(
                self.remapping(),
                remote_path@,
                Mode::Push,
            ),
    {
        let mut url = self.url("/upload_file/");
        url.append(self.apply_remap(remote_path, Mode::Push).as_str());
        url
    }

    /// Where files are asked for.
    pub fn download_url(&self) -> (r: String)
        ensures
            r@ == self.server_url@ + "/download_file"@,
    {
        self.url("/download_file")
    }
}

/// A mapping that is missing, was not given in the form `source:target` or has an
/// empty side leaves every path as it is.
pub proof fn law_no_mapping(remap: Option<Seq<char>>, path: Seq<char>, mode: Mode)
    requires
        remap matches Some(s) ==> {
            ||| forall|i: int| !only_colon(s, i)
            ||| remap_pair(s).0.len() == 0
            ||| remap_pair(s).1.len() == 0
        },
    ensures
        remapped(
            match remap {
                Some(s) => Some(remap_pair(s)),
                None => None,
            },
            path,
            mode,
        ) == path,
{
}

/// A mapping in the form `source:target`, with no colon in either side, is taken
/// apart into these two.
pub proof fn law_remap_pair(source: Seq<char>, target: Seq<char>)
    requires
        !source.contains(':'),
        !target.contains(':'),
    ensures
        remap_pair(source.push(':') + target) == (source, target),
{
    let s = source.push(':') + target;
    let n = source.len() as int;
    assert forall|j: int| 0 <= j < s.len() && j != n implies #[trigger] s[j] != ':' by {
        if j < n {
            assert(source[j] != ':');
        } else {
            assert(s[j] == target[j - n - 1]);
        }
    }
    assert(only_colon(s, n));
    let i = choose|i: int| only_colon(s, i);
    assert(s[n] == ':' && s[i] == ':');
    assert(s.take(n) =~= source);
    assert(s.skip(n + 1) =~= target);
}

/// Pushing back to where a path was pulled from, or pulling back what was pushed,
/// ends at the same path: the two modes undo each other. It holds of every path
/// but those that only the second of the two maps.
pub proof fn law_remap_round_trip(
    remap: Option<(Seq<char>, Seq<char>)>,
    path: Seq<char>,
    there: Mode,
    back: Mode,
)
    requires
        there != back,
        remapped(remap, path, there) == path ==> remapped(remap, path, back) == path,
    ensures
        remapped(remap, remapped(remap, path, there), back) == path,
{
    if let Some((source, target)) = remap {
        let (from, to) = match there {
            Mode::Pull => (source, target),
            Mode::Push => (target, source),
        };
        if source.len() > 0 && target.len() > 0 && from.is_prefix_of(path) {
            let mapped = to + path.skip(from.len() as int);
            assert(to =~= mapped.subrange(0, to.len() as int));
            assert(mapped.skip(to.len() as int) =~= path.skip(from.len() as int));
            assert(from + path.skip(from.len() as int) =~= path);
        }
    }
}

/// A path that does not begin with the side that a mode replaces stays as it is,
/// and in one that does nothing but that beginning changes.
pub proof fn law_remap_changes_prefix_only(
    source: Seq<char>,
    target: Seq<char>,
    rest: Seq<char>,
    path: Seq<char>,
)
    requires
        source.len() > 0,
        target.len() > 0,
    ensures
        remapped(Some((source, target)), source + rest, Mode::Pull) == target + rest,
        remapped(Some((source, target)), target + rest, Mode::Push) == source + rest,
        !source.is_prefix_of(path) ==> remapped(Some((source, target)), path, Mode::Pull) == path,
        !target.is_prefix_of(path) ==> remapped(Some((source, target)), path, Mode::Push) == path,
{
    assert(source =~= (source + rest).subrange(0, source.len() as int));
    assert((source + rest).skip(source.len() as int) =~= rest);
    assert(target =~= (target + rest).subrange(0, target.len() as int));
    assert((target + rest).skip(target.len() as int) =~= rest);
}

/// A mapping without a colon, or with more than one, is none: both sides are empty.
pub proof fn law_remap_pair_refused(s: Seq<char>, i: int, j: int)
    requires
        !s.contains(':') || (0 <= i < j < s.len() && s[i] == ':' && s[j] == ':'),
    ensures
        remap_pair(s) == (Seq::<char>::empty(), Seq::<char>::empty()),
{
    assert forall|k: int| !only_colon(s, k) by {
        if only_colon(s, k) {
            assert(s[k] == ':');
            if s.contains(':') {
                assert(s[i] == ':' && s[j] == ':');
            }
        }
    }
}

/// Whatever its form, the two sides of a mapping hold no colon, and a mapping that has a
/// side is those two sides with a colon between them.
pub proof fn law_remap_pair_makes_up_mapping(s: Seq<char>)
    ensures
        !remap_pair(s).0.contains(':'),
        !remap_pair(s).1.contains(':'),
        remap_pair(s).0.len() > 0 || remap_pair(s).1.len() > 0 ==> s == remap_pair(s).0.push(':')
            + remap_pair(s).1,
{
    if exists|i: int| only_colon(s, i) {
        let i = choose|i: int| only_colon(s, i);
        let (a, b) = remap_pair(s);
        assert forall|j: int| 0 <= j < a.len() implies a[j] != ':' by {
            assert(a[j] == s[j]);
        }
        assert forall|j: int| 0 <= j < b.len() implies b[j] != ':' by {
            assert(b[j] == s[i + 1 + j]);
        }
        assert(s =~= a.push(':') + b);
    }
}

/// Without a mapping, or with one that lacks a side, every path stays as it is.
pub proof fn law_remap_needs_both_sides(
    source: Seq<char>,
    target: Seq<char>,
    path: Seq<char>,
    mode: Mode,
)
    ensures
        remapped(None, path, mode) == path,
        source.len() == 0 || target.len() == 0 ==> remapped(Some((source, target)), path, mode)
            == path,
{
}

/// What a client maps by is the two sides that it holds, as they stand.
pub proof fn law_remapping_is_held(client: FileTransferClient)
    ensures
        match client.remap {
            Some((source, target)) => client.remapping() == Some((source@, target@)),
            None => client.remapping() is None,
        },
{
}

} // verus!
