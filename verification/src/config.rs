//! The persisted configuration: a one-key JSON file holding the download
//! directory. The file is both written and read here, so the format is this
//! module's own: rendering and parsing are exact inverses, which is what
//! makes setting the directory and reading it back return the same path.

use vstd::prelude::*;

use crate::strutil::starts_with;
use crate::task::join_path;

verus! {

/// How one character is written inside the JSON string: quotes and
/// backslashes get a backslash, everything else stands as itself.
pub open spec fn escape_char(c: char) -> Seq<char> {
    if c == '"' {
        seq!['\\', '"']
    } else if c == '\\' {
        seq!['\\', '\\']
    } else {
        seq![c]
    }
}

/// The JSON string-escape of a path.
pub open spec fn json_escape(s: Seq<char>) -> Seq<char>
    decreases s.len(),
{
    if s.len() == 0 {
        Seq::empty()
    } else {
        escape_char(s[0]) + json_escape(s.skip(1))
    }
}

/// The inverse reading: a backslash takes the next character literally, a
/// bare quote cannot occur, anything else stands for itself.
pub open spec fn json_unescape(s: Seq<char>) -> Option<Seq<char>>
    decreases s.len(),
{
    if s.len() == 0 {
        Some(Seq::empty())
    } else if s[0] == '\\' {
        if s.len() >= 2 && (s[1] == '"' || s[1] == '\\') {
            match json_unescape(s.skip(2)) {
                Some(t) => Some(seq![s[1]] + t),
                None => None,
            }
        } else {
            None
        }
    } else if s[0] == '"' {
        None
    } else {
        match json_unescape(s.skip(1)) {
            Some(t) => Some(seq![s[0]] + t),
            None => None,
        }
    }
}

/// Unescaping undoes escaping on every path.
pub proof fn lemma_escape_round_trip(s: Seq<char>)
    ensures
        json_unescape(json_escape(s)) == Some(s),
    decreases s.len(),
{
    if s.len() > 0 {
        lemma_escape_round_trip(s.skip(1));
        let e = json_escape(s);
        let rest = json_escape(s.skip(1));
        assert(e == escape_char(s[0]) + rest);
        if s[0] == '"' || s[0] == '\\' {
            assert(e.len() == 2 + rest.len());
            assert(e[0] == '\\');
            assert(e[1] == s[0]);
            assert(e.skip(2) =~= rest);
            assert(seq![s[0]] + s.skip(1) =~= s);
        } else {
            assert(e[0] == s[0]);
            assert(e.skip(1) =~= rest);
            assert(seq![s[0]] + s.skip(1) =~= s);
        }
    }
}

/// Escaping one more character appends its escape.
pub proof fn lemma_escape_snoc(s: Seq<char>, c: char)
    ensures
        json_escape(s.push(c)) == json_escape(s) + escape_char(c),
    decreases s.len(),
{
    if s.len() == 0 {
        assert(s.push(c)[0] == c);
        assert(s.push(c).skip(1) =~= Seq::<char>::empty());
        assert(json_escape(Seq::<char>::empty()) =~= Seq::<char>::empty());
        assert(json_escape(s.push(c)) == escape_char(s.push(c)[0]) + json_escape(
            s.push(c).skip(1),
        ));
        assert(json_escape(s.push(c)) =~= escape_char(c));
        assert(json_escape(s) + escape_char(c) =~= escape_char(c));
    } else {
        lemma_escape_snoc(s.skip(1), c);
        assert(s.push(c)[0] == s[0]);
        assert(s.push(c).skip(1) =~= s.skip(1).push(c));
        assert(json_escape(s.push(c)) == escape_char(s[0]) + json_escape(s.skip(1).push(c)));
        assert(escape_char(s[0]) + (json_escape(s.skip(1)) + escape_char(c)) =~= (escape_char(s[0])
            + json_escape(s.skip(1))) + escape_char(c));
    }
}

/// The whole configuration file for a directory path.
pub open spec fn spec_render_config(p: Seq<char>) -> Seq<char> {
    "{\"download_directory\": \""@ + json_escape(p) + "\"}"@
}

/// What a configuration file means: the unescaped path between the fixed
/// frame, or nothing when the frame or the escaping is off.
pub open spec fn spec_parse_config(s: Seq<char>) -> Option<Seq<char>> {
    let pre = "{\"download_directory\": \""@;
    let suf = "\"}"@;
    if s.len() >= pre.len() + suf.len() && s.take(pre.len() as int) == pre && s.skip(
        s.len() - suf.len(),
    ) == suf {
        json_unescape(s.subrange(pre.len() as int, s.len() - suf.len()))
    } else {
        None
    }
}

/// A rendered configuration parses back to the path it was rendered from.
pub proof fn lemma_config_round_trip(p: Seq<char>)
    ensures
        spec_parse_config(spec_render_config(p)) == Some(p),
{
    reveal_strlit("{\"download_directory\": \"");
    reveal_strlit("\"}");
    let pre = "{\"download_directory\": \""@;
    let suf = "\"}"@;
    let e = json_escape(p);
    let s = spec_render_config(p);
    assert(s.len() == pre.len() + e.len() + suf.len());
    assert(s.take(pre.len() as int) =~= pre);
    assert(s.skip(s.len() - suf.len()) =~= suf);
    assert(s.subrange(pre.len() as int, s.len() - suf.len()) =~= e);
    lemma_escape_round_trip(p);
}

/// Renders the configuration file content for a directory path.
pub fn render_config(path: &str) -> (r: String)
    ensures
        r@ == spec_render_config(path@),
{
    proof {
        reveal_strlit("{\"download_directory\": \"");
        reveal_strlit("\"}");
        reveal_strlit("\"");
        reveal_strlit("\\");
    }
    let mut r = String::from_str("{\"download_directory\": \"");
    let len = path.unicode_len();
    let mut i: usize = 0;
    while i < len
        invariant
            len == path@.len(),
            i <= len,
            r@ == "{\"download_directory\": \""@ + json_escape(path@.take(i as int)),
        decreases len - i,
    {
        let c = path.get_char(i);
        proof {
            reveal_strlit("{\"download_directory\": \"");
            reveal_strlit("\"");
            reveal_strlit("\\");
            lemma_escape_snoc(path@.take(i as int), path@[i as int]);
            assert(path@.take(i + 1) =~= path@.take(i as int).push(path@[i as int]));
        }
        if c == '"' {
            r.append("\\");
            r.append("\"");
            proof {
                assert(escape_char(c) =~= seq!['\\', '"']);
                assert(r@ =~= "{\"download_directory\": \""@ + json_escape(path@.take(i + 1)));
            }
        } else if c == '\\' {
            r.append("\\");
            r.append("\\");
            proof {
                assert(escape_char(c) =~= seq!['\\', '\\']);
                assert(r@ =~= "{\"download_directory\": \""@ + json_escape(path@.take(i + 1)));
            }
        } else {
            let one = path.substring_char(i, i + 1);
            r.append(one);
            proof {
                assert(one@ =~= seq![c]);
                assert(escape_char(c) =~= seq![c]);
                assert(r@ =~= "{\"download_directory\": \""@ + json_escape(path@.take(i + 1)));
            }
        }
        i += 1;
    }
    proof {
        assert(path@.take(len as int) =~= path@);
    }
    r.append("\"}");
    r
}

/// Reads the directory path out of a configuration file, refusing anything
/// that the renderer cannot have produced.
pub fn parse_config(content: &str) -> (r: Option<String>)
    ensures
        match r {
            Some(p) => spec_parse_config(content@) == Some(p@),
            None => spec_parse_config(content@) is None,
        },
{
    proof {
        reveal_strlit("{\"download_directory\": \"");
        reveal_strlit("\"}");
        reveal_strlit("\"");
        reveal_strlit("\\");
    }
    let pre = "{\"download_directory\": \"";
    let prelen = pre.unicode_len();
    let len = content.unicode_len();
    if len < prelen + 2 {
        return None;
    }
    if !starts_with(content, pre) {
        return None;
    }
    if !(content.get_char(len - 2) == '"' && content.get_char(len - 1) == '}') {
        proof {
            let sk = content@.skip(len - 2);
            assert(sk.len() == 2);
            assert(sk[0] == content@[len - 2]);
            assert(sk[1] == content@[len - 1]);
            if sk == "\"}"@ {
                assert(sk[0] == '"' && sk[1] == '}');
            }
            assert(content@.skip(len - 2) != "\"}"@);
        }
        return None;
    }
    proof {
        assert(content@.skip(len - 2) =~= "\"}"@);
        assert(content@.take(prelen as int) == "{\"download_directory\": \""@);
    }
    let end = len - 2;
    let ghost region = content@.subrange(prelen as int, end as int);
    let mut out = String::new();
    let mut i: usize = prelen;
    proof {
        assert(region.skip(0) =~= region);
        if json_unescape(region) is Some {
            let t0 = json_unescape(region)->0;
            assert(Seq::<char>::empty() + t0 =~= t0);
        }
    }
    while i < end
        invariant
            prelen == "{\"download_directory\": \""@.len(),
            len == content@.len(),
            prelen <= i <= end,
            end == len - 2,
            len >= prelen + 2,
            content@.take(prelen as int) == "{\"download_directory\": \""@,
            content@.skip(len - 2) == "\"}"@,
            region == content@.subrange(prelen as int, end as int),
            json_unescape(region) == (match json_unescape(region.skip(i - prelen)) {
                Some(t) => Some(out@ + t),
                None => None,
            }),
        decreases end - i,
    {
        let ghost j = i - prelen;
        let ghost tail = region.skip(j);
        proof {
            reveal_strlit("{\"download_directory\": \"");
            reveal_strlit("\"}");
            reveal_strlit("\"");
            reveal_strlit("\\");
            assert(tail.len() == end - i);
            assert(tail[0] == content@[i as int]);
        }
        let c = content.get_char(i);
        if c == '\\' {
            if i + 1 >= end {
                proof {
                    assert(json_unescape(tail) is None);
                }
                return None;
            }
            let c2 = content.get_char(i + 1);
            proof {
                assert(tail[1] == content@[i + 1]);
            }
            if c2 == '"' {
                out.append("\"");
                proof {
                    assert(tail.skip(2) =~= region.skip(j + 2));
                }
            } else if c2 == '\\' {
                out.append("\\");
                proof {
                    assert(tail.skip(2) =~= region.skip(j + 2));
                }
            } else {
                proof {
                    assert(json_unescape(tail) is None);
                }
                return None;
            }
            i += 2;
        } else if c == '"' {
            proof {
                assert(json_unescape(tail) is None);
            }
            return None;
        } else {
            let one = content.substring_char(i, i + 1);
            out.append(one);
            proof {
                assert(one@ =~= seq![c]);
                assert(tail.skip(1) =~= region.skip(j + 1));
            }
            i += 1;
        }
    }
    proof {
        assert(region.skip(end - prelen) =~= Seq::<char>::empty());
        assert(json_unescape(region) == Some(out@ + Seq::<char>::empty()));
        assert(out@ + Seq::<char>::empty() =~= out@);
        assert(content@.take(prelen as int) == pre@);
    }
    Some(out)
}

/// The fallback directory when nothing is configured and the host offers no
/// download directory.
pub fn default_downloads_dir() -> (r: String)
    ensures
        r@ == "./downloads"@,
{
    String::from_str("./downloads")
}

/// The configured download directory: the path in the configuration file
/// when it parses, else the host's download directory, else `./downloads`.
pub open spec fn spec_choose_dir(content: Option<Seq<char>>, os_dir: Option<Seq<char>>) -> Seq<
    char,
> {
    let fallback = match os_dir {
        Some(d) => d,
        None => "./downloads"@,
    };
    match content {
        Some(s) => match spec_parse_config(s) {
            Some(p) => p,
            None => fallback,
        },
        None => fallback,
    }
}

/// Resolves the download directory from the configuration file's content, if
/// any, and the host's download directory, if any.
pub fn choose_download_directory(content: Option<String>, os_dir: Option<String>) -> (r: String)
    ensures
        r@ == spec_choose_dir(
            match content {
                Some(s) => Some(s@),
                None => None,
            },
            match os_dir {
                Some(d) => Some(d@),
                None => None,
            },
        ),
{
    proof {
        reveal_strlit("./downloads");
    }
    if let Some(s) = content {
        if let Some(p) = parse_config(s.as_str()) {
            return p;
        }
    }
    match os_dir {
        Some(d) => d,
        None => default_downloads_dir(),
    }
}

/// Setting the directory and reading it back returns the same path: the
/// renderer's output parses to the path it was given, so the getter prefers
/// it to every fallback.
pub proof fn lemma_set_then_get(p: Seq<char>, os_dir: Option<Seq<char>>)
    ensures
        spec_choose_dir(Some(spec_render_config(p)), os_dir) == p,
{
    lemma_config_round_trip(p);
}

/// Validates a directory choice and renders the configuration to persist:
/// the path must exist and be a directory, as the caller observed on disk.
pub fn set_directory_config(path: &str, path_exists: bool, is_dir: bool) -> (r: Result<
    String,
    &'static str,
>)
    ensures
        match r {
            Ok(c) => path_exists && is_dir && c@ == spec_render_config(path@),
            Err(_) => !path_exists || !is_dir,
        },
{
    if !path_exists {
        Err("the given path does not exist")
    } else if !is_dir {
        Err("the given path is not a directory")
    } else {
        Ok(render_config(path))
    }
}

/// Where the configuration file lives under the user's configuration
/// directory.
pub fn config_file_path(config_dir: &str) -> (r: String)
    ensures
        r@ == crate::task::spec_join_path(
            crate::task::spec_join_path(config_dir@, "OpenStore"@),
            "download_config.json"@,
        ),
{
    let a = join_path(config_dir, "OpenStore");
    join_path(a.as_str(), "download_config.json")
}

} // verus!
