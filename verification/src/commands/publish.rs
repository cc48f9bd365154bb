//! `suture publish`: ask the registry to add a spool entry, by a comment on its upload issue.
use vstd::prelude::*;

use crate::spool_entry::{EntryView, SpoolEntry};
use crate::text::{
    chars_eq_str, chars_of, decimal, ends_with, ends_with_str, escape_json_chars, escape_quotes,
    escaped, join_strs, join_with, json_escaped, json_string_value, lacks,
    lemma_json_escaped_decodes, lemma_json_escaped_lacks_newline, opt_str, opt_view, push_chars, push_decimal,
    push_str, string_of, strings_view, trim, trim_end, trim_end_chars, trim_string, trim_version,
    version_arg,
};

verus! {

/// The lines of the usage text of `suture publish`.
pub open spec fn usage_lines() -> Seq<Seq<char>> {
    seq![
        "usage:"@,
        "  suture publish <spool.toml> [--rate <minutes>]"@,
        "  suture publish <name> <version> <git-url> [--tag <tag>] [--summary <text>] [--entry <path>] [--rate <minutes>]"@,
        "env:"@,
        "  SUTURE_SPOOLS_REPO (default MentalogueLang/Spools-Index)"@,
        "  SUTURE_SPOOLS_ISSUE (default 1)"@,
        "  SUTURE_SPOOLS_TOKEN (or GH_TOKEN/GITHUB_TOKEN)"@,
    ]
}

/// The usage text of `suture publish`.
pub open spec fn spec_usage() -> Seq<char> {
    join_with(usage_lines(), "\n"@)
}

/// The usage text of `suture publish`.
pub fn usage() -> (r: String)
    ensures
        r@ == spec_usage(),
{
    let lines: Vec<&str> = vec![
        "usage:",
        "  suture publish <spool.toml> [--rate <minutes>]",
        "  suture publish <name> <version> <git-url> [--tag <tag>] [--summary <text>] [--entry <path>] [--rate <minutes>]",
        "env:",
        "  SUTURE_SPOOLS_REPO (default MentalogueLang/Spools-Index)",
        "  SUTURE_SPOOLS_ISSUE (default 1)",
        "  SUTURE_SPOOLS_TOKEN (or GH_TOKEN/GITHUB_TOKEN)",
    ];
    assert(lines@.map_values(|p: &str| p@) =~= usage_lines());
    join_strs(&lines, "\n")
}

/// The message for a flag given without its value.
pub open spec fn missing_value_message(flag: Seq<char>) -> Seq<char> {
    "missing value after "@ + flag
}

/// The message for a flag that the command does not know.
pub open spec fn unknown_flag_message(flag: Seq<char>) -> Seq<char> {
    "unknown flag `"@ + flag + "`"@
}

/// The rate limit, in minutes, that a request carries where no `--rate` is given.
pub open spec fn default_rate() -> Seq<char> {
    "2"@
}

/// The flags that follow a spool file path, from position `i` on: any number of
/// `--rate <minutes>`, the last of which sets the rate limit (trimmed).
pub open spec fn file_flags(args: Seq<Seq<char>>, i: int, rate: Seq<char>) -> Result<
    Seq<char>,
    Seq<char>,
>
    decreases args.len() - i,
{
    if i < 0 || i >= args.len() {
        Ok(rate)
    } else if args[i] == "--rate"@ {
        if i + 1 < args.len() {
            file_flags(args, i + 2, trim(args[i + 1]))
        } else {
            Err(missing_value_message(args[i]))
        }
    } else {
        Err(unknown_flag_message(args[i]))
    }
}

/// The settings that the flags of a request built from its parts give.
pub struct PublishFlags {
    pub tag: Option<Seq<char>>,
    pub summary: Option<Seq<char>>,
    pub entry: Option<Seq<char>>,
    pub rate: Seq<char>,
}

/// The flags of a request built from its parts, from position `i` on: each of `--tag`,
/// `--summary`, `--entry` and `--rate` takes the next argument, trimmed, as its value.
pub open spec fn parts_flags(args: Seq<Seq<char>>, i: int, f: PublishFlags) -> Result<
    PublishFlags,
    Seq<char>,
>
    decreases args.len() - i,
{
    if i < 0 || i >= args.len() {
        Ok(f)
    } else {
        let a = args[i];
        if a == "--tag"@ || a == "--summary"@ || a == "--entry"@ || a == "--rate"@ {
            if i + 1 < args.len() {
                let v = trim(args[i + 1]);
                let g = if a == "--tag"@ {
                    PublishFlags { tag: Some(v), ..f }
                } else if a == "--summary"@ {
                    PublishFlags { summary: Some(v), ..f }
                } else if a == "--entry"@ {
                    PublishFlags { entry: Some(v), ..f }
                } else {
                    PublishFlags { rate: v, ..f }
                };
                parts_flags(args, i + 2, g)
            } else {
                Err(missing_value_message(a))
            }
        } else {
            Err(unknown_flag_message(a))
        }
    }
}

/// A publish request: a spool file to read and submit, or an entry built from its parts.
#[derive(Debug)]
pub enum PublishRequest {
    File { path: String, rate_limit: String },
    Parts { entry: SpoolEntry, rate_limit: String },
}

/// The mathematical value of a [`PublishRequest`].
pub enum PublishPlan {
    File { path: Seq<char>, rate_limit: Seq<char> },
    Parts { entry: EntryView, rate_limit: Seq<char> },
}

impl View for PublishRequest {
    type V = PublishPlan;

    open spec fn view(&self) -> PublishPlan {
        match self {
            PublishRequest::File { path, rate_limit } => PublishPlan::File {
                path: path@,
                rate_limit: rate_limit@,
            },
            PublishRequest::Parts { entry, rate_limit } => PublishPlan::Parts {
                entry: entry@,
                rate_limit: rate_limit@,
            },
        }
    }
}

/// An argument names a spool file where it ends with `.toml` or names an existing path.
pub open spec fn spec_looks_like_spool_file(value: Seq<char>, exists: bool) -> bool {
    ends_with(value, ".toml"@) || exists
}

/// Whether an argument names a spool file, given whether it names an existing path.
pub fn looks_like_spool_file(value: &str, exists: bool) -> (r: bool)
    ensures
        r == spec_looks_like_spool_file(value@, exists),
{
    let v = chars_of(value);
    ends_with_str(&v, ".toml") || exists
}

/// The entry that `suture publish <name> <version> <git-url>` describes.
pub open spec fn parts_entry(
    name: Seq<char>,
    version: Seq<char>,
    git: Seq<char>,
    f: PublishFlags,
) -> EntryView {
    EntryView {
        name,
        version,
        summary: f.summary,
        source_git: git,
        source_tag: f.tag,
        source_rev: None,
        build_entry: f.entry,
        dependencies: Seq::empty(),
        dev_dependencies: Seq::empty(),
        artifacts: Seq::empty(),
    }
}

/// The request that `suture publish` was given, where `first_exists` tells whether the first
/// argument names an existing path: a spool file with its flags, or an entry from its name,
/// version and git url (trimmed, the version without leading `v`s, none of them empty) and
/// its flags; the usage text where too few arguments are given.
pub open spec fn spec_publish_args(args: Seq<Seq<char>>, first_exists: bool) -> Result<
    PublishPlan,
    Seq<char>,
> {
    if args.len() == 0 {
        Err(spec_usage())
    } else if spec_looks_like_spool_file(args[0], first_exists) {
        match file_flags(args, 1, default_rate()) {
            Ok(rate) => Ok(PublishPlan::File { path: args[0], rate_limit: rate }),
            Err(e) => Err(e),
        }
    } else if args.len() < 3 {
        Err(spec_usage())
    } else {
        let name = trim(args[0]);
        let version = version_arg(args[1]);
        let git = trim(args[2]);
        if name.len() == 0 || version.len() == 0 || git.len() == 0 {
            Err("name, version, and git url are required"@)
        } else {
            let f0 = PublishFlags { tag: None, summary: None, entry: None, rate: default_rate() };
            match parts_flags(args, 3, f0) {
                Ok(f) => Ok(
                    PublishPlan::Parts { entry: parts_entry(name, version, git, f), rate_limit: f.rate },
                ),
                Err(e) => Err(e),
            }
        }
    }
}

proof fn lemma_parts_flags_tag(args: Seq<Seq<char>>, i: int, f: PublishFlags)
    ensures
        parts_flags(args, i, f) matches Ok(g) ==> (g.tag == f.tag || exists|j: int|
            i <= j && j + 1 < args.len() && #[trigger] args[j] == "--tag"@ && g.tag == Some(
                trim(args[j + 1]),
            )),
        (forall|j: int| i <= j < args.len() ==> #[trigger] args[j] != "--tag"@) ==> (parts_flags(
            args,
            i,
            f,
        ) matches Ok(g) ==> g.tag == f.tag),
    decreases args.len() - i,
{
    if 0 <= i < args.len() {
        let a = args[i];
        if (a == "--tag"@ || a == "--summary"@ || a == "--entry"@ || a == "--rate"@) && i + 1
            < args.len() {
            let v = trim(args[i + 1]);
            let g = if a == "--tag"@ {
                PublishFlags { tag: Some(v), ..f }
            } else if a == "--summary"@ {
                PublishFlags { summary: Some(v), ..f }
            } else if a == "--entry"@ {
                PublishFlags { entry: Some(v), ..f }
            } else {
                PublishFlags { rate: v, ..f }
            };
            lemma_parts_flags_tag(args, i + 2, g);
        }
    }
}

/// A request built from its parts carries a source tag only where `--tag` was given: where no
/// `--tag` stands among the flags after the name, version and git url, the entry has no tag;
/// where it has one, it is the trimmed argument that follows a `--tag` among those flags. No
/// other argument, the version included, ever becomes the tag.
pub proof fn lemma_publish_tag_only_from_flag(
    args: Seq<Seq<char>>,
    first_exists: bool,
    entry: EntryView,
    rate: Seq<char>,
)
    requires
        spec_publish_args(args, first_exists) == Ok::<PublishPlan, Seq<char>>(
            (PublishPlan::Parts { entry, rate_limit: rate }),
        ),
    ensures
        (forall|j: int| 3 <= j < args.len() ==> #[trigger] args[j] != "--tag"@)
            ==> entry.source_tag is None,
        entry.source_tag is Some ==> exists|j: int|
            3 <= j && j + 1 < args.len() && #[trigger] args[j] == "--tag"@ && entry.source_tag
                == Some(trim(args[j + 1])),
{
    let f0 = PublishFlags { tag: None, summary: None, entry: None, rate: default_rate() };
    lemma_parts_flags_tag(args, 3, f0);
}

fn missing_value(flag: &str) -> (r: String)
    ensures
        r@ == missing_value_message(flag@),
{
    let mut m = "missing value after ".to_owned();
    push_str(&mut m, flag);
    m
}

fn unknown_flag(flag: &str) -> (r: String)
    ensures
        r@ == unknown_flag_message(flag@),
{
    let mut m = "unknown flag `".to_owned();
    push_str(&mut m, flag);
    push_str(&mut m, "`");
    m
}

/// The rate limit that the flags after a spool file path set.
fn parse_file_flags(args: &Vec<String>) -> (r: Result<String, String>)
    requires
        args.len() >= 1,
    ensures
        match r {
            Ok(rate) => file_flags(strings_view(args@), 1, default_rate()) == Ok::<
                Seq<char>,
                Seq<char>,
            >(rate@),
            Err(e) => file_flags(strings_view(args@), 1, default_rate()) == Err::<
                Seq<char>,
                Seq<char>,
            >(e@),
        },
{
    let ghost sv = strings_view(args@);
    let mut rate = "2".to_owned();
    let mut i: usize = 1;
    while i < args.len()
        invariant
            1 <= i,
            sv == strings_view(args@),
            file_flags(sv, 1, default_rate()) == file_flags(sv, i as int, rate@),
        decreases args.len() - i,
    {
        assert(sv[i as int] == args@[i as int]@);
        let a = chars_of(args[i].as_str());
        if chars_eq_str(&a, "--rate") {
            if i + 1 < args.len() {
                assert(sv[i + 1] == args@[i + 1]@);
                rate = trim_string(args[i + 1].as_str());
                i = i + 2;
            } else {
                return Err(missing_value(args[i].as_str()));
            }
        } else {
            return Err(unknown_flag(args[i].as_str()));
        }
    }
    Ok(rate)
}

/// The flags of a request built from its parts, as exec values.
struct FlagValues {
    tag: Option<String>,
    summary: Option<String>,
    entry: Option<String>,
    rate: String,
}

spec fn flag_values_view(f: FlagValues) -> PublishFlags {
    PublishFlags {
        tag: opt_view(f.tag),
        summary: opt_view(f.summary),
        entry: opt_view(f.entry),
        rate: f.rate@,
    }
}

/// The settings that the flags after the name, version and git url set.
fn parse_parts_flags(args: &Vec<String>) -> (r: Result<FlagValues, String>)
    requires
        args.len() >= 3,
    ensures
        match r {
            Ok(f) => parts_flags(
                strings_view(args@),
                3,
                PublishFlags { tag: None, summary: None, entry: None, rate: default_rate() },
            ) == Ok::<PublishFlags, Seq<char>>(flag_values_view(f)),
            Err(e) => parts_flags(
                strings_view(args@),
                3,
                PublishFlags { tag: None, summary: None, entry: None, rate: default_rate() },
            ) == Err::<PublishFlags, Seq<char>>(e@),
        },
{
    let ghost sv = strings_view(args@);
    let mut f = FlagValues { tag: None, summary: None, entry: None, rate: "2".to_owned() };
    let ghost f0 = PublishFlags { tag: None, summary: None, entry: None, rate: default_rate() };
    let mut i: usize = 3;
    while i < args.len()
        invariant
            3 <= i,
            sv == strings_view(args@),
            f0 == (PublishFlags { tag: None, summary: None, entry: None, rate: default_rate() }),
            parts_flags(sv, 3, f0) == parts_flags(sv, i as int, flag_values_view(f)),
        decreases args.len() - i,
    {
        assert(sv[i as int] == args@[i as int]@);
        let a = chars_of(args[i].as_str());
        let is_tag = chars_eq_str(&a, "--tag");
        let is_summary = chars_eq_str(&a, "--summary");
        let is_entry = chars_eq_str(&a, "--entry");
        let is_rate = chars_eq_str(&a, "--rate");
        if is_tag || is_summary || is_entry || is_rate {
            if i + 1 < args.len() {
                assert(sv[i + 1] == args@[i + 1]@);
                let v = trim_string(args[i + 1].as_str());
                if is_tag {
                    f.tag = Some(v);
                } else if is_summary {
                    f.summary = Some(v);
                } else if is_entry {
                    f.entry = Some(v);
                } else {
                    f.rate = v;
                }
                i = i + 2;
            } else {
                return Err(missing_value(args[i].as_str()));
            }
        } else {
            return Err(unknown_flag(args[i].as_str()));
        }
    }
    Ok(f)
}

/// The request that `suture publish` was given (see [`spec_publish_args`]).
pub fn parse_args(args: &Vec<String>, first_exists: bool) -> (r: Result<PublishRequest, String>)
    ensures
        match r {
            Ok(req) => spec_publish_args(strings_view(args@), first_exists) == Ok::<
                PublishPlan,
                Seq<char>,
            >(req@),
            Err(e) => spec_publish_args(strings_view(args@), first_exists) == Err::<
                PublishPlan,
                Seq<char>,
            >(e@),
        },
{
    let ghost sv = strings_view(args@);
    if args.len() == 0 {
        return Err(usage());
    }
    assert(sv[0] == args@[0]@);
    if looks_like_spool_file(args[0].as_str(), first_exists) {
        let rate = parse_file_flags(args);
        return match rate {
            Ok(rate_limit) => Ok(PublishRequest::File { path: args[0].clone(), rate_limit }),
            Err(e) => Err(e),
        };
    }
    if args.len() < 3 {
        return Err(usage());
    }
    assert(sv[1] == args@[1]@);
    assert(sv[2] == args@[2]@);
    let name = trim_string(args[0].as_str());
    let version = trim_version(args[1].as_str());
    let git = trim_string(args[2].as_str());
    if name.as_str().is_empty() || version.as_str().is_empty() || git.as_str().is_empty() {
        return Err("name, version, and git url are required".to_owned());
    }
    let flags = parse_parts_flags(args);
    match flags {
        Ok(f) => {
            let tag: Option<&str> = match &f.tag {
                Some(t) => Some(t.as_str()),
                None => None,
            };
            let mut entry = SpoolEntry::from_parts(
                name.as_str(),
                version.as_str(),
                git.as_str(),
                tag,
            );
            entry.summary = f.summary;
            entry.build_entry = f.entry;
            let ghost fv = flag_values_view(f);
            assert(entry@ == parts_entry(name@, version@, git@, fv));
            Ok(PublishRequest::Parts { entry, rate_limit: f.rate })
        },
        Err(e) => Err(e),
    }
}

/// The comment that asks the registry to add the entry whose `spool.toml` text is `source`.
pub open spec fn spec_toml_comment(source: Seq<char>, rate_limit: Seq<char>) -> Seq<char> {
    "/spool-upload-toml rate_limit_minutes="@ + escaped(rate_limit) + "\n```toml\n"@ + trim_end(
        source,
    ) + "\n```"@
}

/// The comment that asks the registry to add the entry whose `spool.toml` text is `source`,
/// with the given rate limit in minutes.
pub fn build_toml_comment(source: &str, rate_limit: &str) -> (r: String)
    ensures
        r@ == spec_toml_comment(source@, rate_limit@),
{
    let mut out = "/spool-upload-toml rate_limit_minutes=".to_owned();
    let e = escape_value(rate_limit);
    push_str(&mut out, e.as_str());
    push_str(&mut out, "\n```toml\n");
    let sc = chars_of(source);
    let t = trim_end_chars(&sc);
    push_chars(&mut out, &t);
    push_str(&mut out, "\n```");
    out
}

/// `value` with `\` and `"` escaped by a backslash.
pub fn escape_value(value: &str) -> (r: String)
    ensures
        r@ == escaped(value@),
{
    let v = chars_of(value);
    let e = escape_quotes(&v);
    string_of(&e)
}

/// `value` with `\`, `"` and line breaks escaped for a JSON string.
pub fn escape_json(value: &str) -> (r: String)
    ensures
        r@ == json_escaped(value@),
        lacks(r@, '\n'),
{
    proof {
        lemma_json_escaped_lacks_newline(value@);
    }
    let v = chars_of(value);
    let e = escape_json_chars(&v);
    string_of(&e)
}

/// Decoding the text that `escape_json` gives for a value, as the body of a JSON string,
/// gives the value back, where the value's only control characters are line breaks.
pub proof fn lemma_escape_json_reads_back(value: Seq<char>)
    requires
        forall|i: int| 0 <= i < value.len() ==> #[trigger] value[i] == '\n' || (value[i] as u32) >= 32,
    ensures
        json_string_value(json_escaped(value)) == Some(value),
{
    lemma_json_escaped_decodes(value);
}

/// Where a comment on `issue` of the GitHub repository `repo` is posted.
pub open spec fn spec_comment_url(repo: Seq<char>, issue: Seq<char>) -> Seq<char> {
    "https://api.github.com/repos/"@ + repo + "/issues/"@ + issue + "/comments"@
}

/// Where a comment on `issue` of the GitHub repository `repo` is posted.
pub fn comment_url(repo: &str, issue: &str) -> (r: String)
    ensures
        r@ == spec_comment_url(repo@, issue@),
{
    let mut out = "https://api.github.com/repos/".to_owned();
    push_str(&mut out, repo);
    push_str(&mut out, "/issues/");
    push_str(&mut out, issue);
    push_str(&mut out, "/comments");
    out
}

/// The JSON body of a comment whose text is `body`.
pub open spec fn spec_comment_payload(body: Seq<char>) -> Seq<char> {
    "{\"body\":\""@ + json_escaped(body) + "\"}"@
}

/// The JSON body of a comment whose text is `body`.
pub fn comment_payload(body: &str) -> (r: String)
    ensures
        r@ == spec_comment_payload(body@),
{
    let mut out = "{\"body\":\"".to_owned();
    let e = escape_json(body);
    push_str(&mut out, e.as_str());
    push_str(&mut out, "\"}");
    out
}

/// The error for a comment that GitHub refused with `status` (500 where the request did not
/// reach it).
pub fn api_error_message(status: u16) -> (r: String)
    ensures
        r@ == "github api error (status "@ + decimal(status as nat) + ")"@,
{
    let mut out = "github api error (status ".to_owned();
    push_decimal(&mut out, status as u64);
    push_str(&mut out, ")");
    out
}

/// The HTTP headers of a comment request made with `token`, in order.
pub open spec fn spec_comment_headers(token: Seq<char>) -> Seq<(Seq<char>, Seq<char>)> {
    seq![
        ("Accept"@, "application/vnd.github+json"@),
        ("User-Agent"@, "suture-cli"@),
        ("Authorization"@, "Bearer "@ + token),
    ]
}

/// The HTTP headers of a comment request made with `token`, in order.
pub fn comment_headers(token: &str) -> (r: Vec<(String, String)>)
    ensures
        r@.map_values(|h: (String, String)| (h.0@, h.1@)) == spec_comment_headers(token@),
{
    let mut bearer = "Bearer ".to_owned();
    push_str(&mut bearer, token);
    let r = vec![
        ("Accept".to_owned(), "application/vnd.github+json".to_owned()),
        ("User-Agent".to_owned(), "suture-cli".to_owned()),
        ("Authorization".to_owned(), bearer),
    ];
    assert(r@.map_values(|h: (String, String)| (h.0@, h.1@)) =~= spec_comment_headers(token@));
    r
}

/// Where a request is posted and with which token.
#[derive(Debug)]
pub struct CommentTarget {
    pub repo: String,
    pub issue: String,
    pub token: String,
}

/// The repository, issue and token of a request, from the settings `SUTURE_SPOOLS_REPO`
/// (default `MentalogueLang/Spools-Index`), `SUTURE_SPOOLS_ISSUE` (default `1`) and the
/// first of `SUTURE_SPOOLS_TOKEN`, `GITHUB_TOKEN` and `GH_TOKEN` that is set; an error where
/// no token is set.
pub fn comment_target(
    repo: Option<&str>,
    issue: Option<&str>,
    spools_token: Option<&str>,
    github_token: Option<&str>,
    gh_token: Option<&str>,
) -> (r: Result<CommentTarget, String>)
    ensures
        match r {
            Ok(t) => {
                &&& t.repo@ == match repo {
                    Some(x) => x@,
                    None => "MentalogueLang/Spools-Index"@,
                }
                &&& t.issue@ == match issue {
                    Some(x) => x@,
                    None => "1"@,
                }
                &&& Some(t.token@) == if spools_token is Some {
                    opt_str(spools_token)
                } else if github_token is Some {
                    opt_str(github_token)
                } else {
                    opt_str(gh_token)
                }
            },
            Err(e) => spools_token is None && github_token is None && gh_token is None && e@
                == "missing token; set SUTURE_SPOOLS_TOKEN or GH_TOKEN"@,
        },
{
    let repo = match repo {
        Some(x) => x.to_owned(),
        None => "MentalogueLang/Spools-Index".to_owned(),
    };
    let issue = match issue {
        Some(x) => x.to_owned(),
        None => "1".to_owned(),
    };
    let token = match spools_token {
        Some(t) => t.to_owned(),
        None => match github_token {
            Some(t) => t.to_owned(),
            None => match gh_token {
                Some(t) => t.to_owned(),
                None => {
                    return Err("missing token; set SUTURE_SPOOLS_TOKEN or GH_TOKEN".to_owned());
                },
            },
        },
    };
    Ok(CommentTarget { repo, issue, token })
}

} // verus!
