//! Argument reading of the one-shot `view` commands: `sources <db>`,
//! `posts <db> [--limit N] [--after-id N] [--source NAME] [--include-extra]`,
//! and `assets <db> --post-ids <id,...>`. Every shape error is found here,
//! before any database is opened.

use vstd::prelude::*;
use vstd::string::StringExecFns;

use crate::domain::string_views;
use crate::text::{
    chars_of, decimal_chars, decimal_string, join2, parse_i64, parse_unsigned, spec_parse_i64,
    spec_parse_unsigned, str_eq, string_from_chars, sub_chars, to_owned, trim, trim_chars,
};
use crate::web::{find_or_end, lemma_seg_end, seg_end};

verus! {

/// Default page size of `posts`.
pub const DEFAULT_POSTS_LIMIT: u32 = 20;

/// Most ids one `assets` call accepts.
pub const MAX_ASSET_IDS: usize = 50;

/// The options of `posts`.
pub struct PostsOptsView {
    pub limit: u32,
    pub after_id: Option<i64>,
    pub source_name: Option<Seq<char>>,
    pub include_extra: bool,
}

pub open spec fn default_posts() -> PostsOptsView {
    PostsOptsView { limit: DEFAULT_POSTS_LIMIT, after_id: None, source_name: None, include_extra: false }
}

/// The `posts` flags from index `i` of `args` on.
pub open spec fn posts_from(args: Seq<Seq<char>>, i: nat, st: PostsOptsView) -> Result<
    PostsOptsView,
    Seq<char>,
>
    decreases args.len() - i,
{
    if i >= args.len() {
        Ok(st)
    } else {
        let f = args[i as int];
        if f == "--include-extra"@ {
            posts_from(args, i + 1, PostsOptsView { include_extra: true, ..st })
        } else if f == "--limit"@ || f == "--after-id"@ || f == "--source"@ {
            if i + 1 >= args.len() {
                Err(f + " requires a value"@)
            } else {
                let v = args[i + 1 as int];
                if f == "--limit"@ {
                    match spec_parse_unsigned(v, u32::MAX as nat) {
                        None => Err("--limit must be a positive integer"@),
                        Some(n) => if n == 0 {
                            Err("--limit must be a positive integer"@)
                        } else {
                            posts_from(args, i + 2, PostsOptsView { limit: n as u32, ..st })
                        },
                    }
                } else if f == "--after-id"@ {
                    match spec_parse_i64(v) {
                        None => Err("--after-id must be an integer"@),
                        Some(n) => posts_from(
                            args,
                            i + 2,
                            PostsOptsView { after_id: Some(n as i64), ..st },
                        ),
                    }
                } else {
                    posts_from(args, i + 2, PostsOptsView { source_name: Some(v), ..st })
                }
            }
        } else {
            Err("unknown view posts option: "@ + f)
        }
    }
}

/// The `assets` flags from index `i` on: the raw id list, given once.
pub open spec fn assets_flags(args: Seq<Seq<char>>, i: nat, raw: Option<Seq<char>>) -> Result<
    Option<Seq<char>>,
    Seq<char>,
>
    decreases args.len() - i,
{
    if i >= args.len() {
        Ok(raw)
    } else if args[i as int] == "--post-ids"@ {
        if i + 1 >= args.len() {
            Err("--post-ids requires a value"@)
        } else if raw is Some {
            Err("--post-ids specified more than once"@)
        } else {
            assets_flags(args, i + 2, Some(args[i + 1 as int]))
        }
    } else {
        Err("unknown view assets option: "@ + args[i as int])
    }
}

/// The ids of a comma-separated list from `start` on, blank entries skipped
/// and repeats dropped, after the ids `acc`.
pub open spec fn ids_from(raw: Seq<char>, start: int, acc: Seq<i64>) -> Result<Seq<i64>, Seq<char>>
    decreases raw.len() - start,
{
    if start < 0 || start > raw.len() {
        Ok(acc)
    } else {
        let end = seg_end(raw, ',', start);
        let token = trim(raw.subrange(start, end));
        let next = if token.len() == 0 {
            Ok(acc)
        } else {
            match spec_parse_i64(token) {
                None => Err("--post-ids entry is not an integer: "@ + token),
                Some(id) => Ok(
                    if acc.contains(id as i64) {
                        acc
                    } else {
                        acc.push(id as i64)
                    },
                ),
            }
        };
        match next {
            Err(e) => Err(e),
            Ok(a) => if end < raw.len() {
                proof {
                    lemma_seg_end(raw, ',', start);
                }
                ids_from(raw, end + 1, a)
            } else {
                Ok(a)
            },
        }
    }
}

/// The id list of `assets`: at least one and at most [`MAX_ASSET_IDS`] ids.
pub open spec fn spec_post_ids(raw: Seq<char>) -> Result<Seq<i64>, Seq<char>> {
    match ids_from(raw, 0, Seq::empty()) {
        Err(e) => Err(e),
        Ok(ids) => if ids.len() == 0 {
            Err("--post-ids requires at least one id"@)
        } else if ids.len() > MAX_ASSET_IDS {
            Err("--post-ids accepts at most 50 ids, got "@ + decimal_chars(ids.len()))
        } else {
            Ok(ids)
        },
    }
}

/// A view command as plain values.
pub enum ViewCommandView {
    Sources { db_path: Seq<char> },
    Posts { db_path: Seq<char>, opts: PostsOptsView },
    Assets { db_path: Seq<char>, post_ids: Seq<i64> },
}

/// What the `view` arguments ask for, or the message that refuses them.
pub open spec fn spec_view_command(args: Seq<Seq<char>>) -> Result<ViewCommandView, Seq<char>> {
    if args.len() == 0 {
        Err("view requires a subcommand: sources | posts | assets"@)
    } else if args[0] == "sources"@ {
        if args.len() != 2 {
            Err("view sources requires <db-path>"@)
        } else {
            Ok(ViewCommandView::Sources { db_path: args[1] })
        }
    } else if args[0] == "posts"@ {
        if args.len() < 2 {
            Err("view posts requires <db-path>"@)
        } else {
            match posts_from(args, 2, default_posts()) {
                Err(e) => Err(e),
                Ok(opts) => Ok(ViewCommandView::Posts { db_path: args[1], opts }),
            }
        }
    } else if args[0] == "assets"@ {
        if args.len() < 2 {
            Err("view assets requires <db-path> --post-ids <id,...>"@)
        } else {
            match assets_flags(args, 2, None) {
                Err(e) => Err(e),
                Ok(None) => Err("view assets requires --post-ids <id,...>"@),
                Ok(Some(raw)) => match spec_post_ids(raw) {
                    Err(e) => Err(e),
                    Ok(ids) => Ok(ViewCommandView::Assets { db_path: args[1], post_ids: ids }),
                },
            }
        }
    } else {
        Err("unknown view subcommand: "@ + args[0])
    }
}

/// A `view` command, read from its arguments.
#[derive(Debug, Clone, PartialEq, Eq)]
pub enum ViewCommand {
    /// Per-source totals.
    Sources { db_path: String },
    /// A keyset page of post metadata.
    Posts {
        db_path: String,
        limit: u32,
        after_id: Option<i64>,
        source_name: Option<String>,
        include_extra: bool,
    },
    /// The URL groups of the named posts.
    Assets { db_path: String, post_ids: Vec<i64> },
}

pub open spec fn opt_view(o: Option<String>) -> Option<Seq<char>> {
    match o {
        Some(s) => Some(s@),
        None => None,
    }
}

impl View for ViewCommand {
    type V = ViewCommandView;

    open spec fn view(&self) -> ViewCommandView {
        match self {
            ViewCommand::Sources { db_path } => ViewCommandView::Sources { db_path: db_path@ },
            ViewCommand::Posts { db_path, limit, after_id, source_name, include_extra } =>
                ViewCommandView::Posts {
                db_path: db_path@,
                opts: PostsOptsView {
                    limit: *limit,
                    after_id: *after_id,
                    source_name: opt_view(*source_name),
                    include_extra: *include_extra,
                },
            },
            ViewCommand::Assets { db_path, post_ids } => ViewCommandView::Assets {
                db_path: db_path@,
                post_ids: post_ids@,
            },
        }
    }
}

struct PostsOpts {
    limit: u32,
    after_id: Option<i64>,
    source_name: Option<String>,
    include_extra: bool,
}

spec fn posts_view(o: PostsOpts) -> PostsOptsView {
    PostsOptsView {
        limit: o.limit,
        after_id: o.after_id,
        source_name: opt_view(o.source_name),
        include_extra: o.include_extra,
    }
}

fn parse_posts(args: &[String]) -> (r: Result<PostsOpts, String>)
    requires
        args@.len() >= 2,
    ensures
        match posts_from(string_views(args@), 2, default_posts()) {
            Ok(o) => r matches Ok(p) && posts_view(p) == o,
            Err(m) => r matches Err(e) && e@ == m,
        },
{
    let ghost views = string_views(args@);
    let mut st = PostsOpts { limit: DEFAULT_POSTS_LIMIT, after_id: None, source_name: None, include_extra: false };
    let mut index: usize = 2;
    while index < args.len()
        invariant
            views == string_views(args@),
            2 <= index <= args@.len(),
            posts_from(views, 2, default_posts()) == posts_from(views, index as nat, posts_view(st)),
        decreases args@.len() - index,
    {
        let flag = args[index].as_str();
        assert(views[index as int] == flag@);
        if str_eq(flag, "--include-extra") {
            st.include_extra = true;
            index += 1;
        } else if str_eq(flag, "--limit") || str_eq(flag, "--after-id") || str_eq(flag, "--source") {
            if index + 1 >= args.len() {
                return Err(join2(flag, " requires a value"));
            }
            let value = args[index + 1].as_str();
            assert(views[index + 1 as int] == value@);
            if str_eq(flag, "--limit") {
                let c = chars_of(value);
                match parse_unsigned(c.as_slice(), u32::MAX as u64) {
                    None => {
                        return Err(String::from_str("--limit must be a positive integer"));
                    },
                    Some(n) => {
                        if n == 0 {
                            return Err(String::from_str("--limit must be a positive integer"));
                        }
                        st.limit = n as u32;
                    },
                }
            } else if str_eq(flag, "--after-id") {
                let c = chars_of(value);
                match parse_i64(c.as_slice()) {
                    None => {
                        return Err(String::from_str("--after-id must be an integer"));
                    },
                    Some(n) => {
                        st.after_id = Some(n);
                    },
                }
            } else {
                st.source_name = Some(to_owned(value));
            }
            index += 2;
        } else {
            return Err(join2("unknown view posts option: ", flag));
        }
    }
    Ok(st)
}

fn assets_raw(args: &[String]) -> (r: Result<Option<String>, String>)
    requires
        args@.len() >= 2,
    ensures
        match assets_flags(string_views(args@), 2, None) {
            Ok(o) => r matches Ok(p) && opt_view(p) == o,
            Err(m) => r matches Err(e) && e@ == m,
        },
{
    let ghost views = string_views(args@);
    let mut raw: Option<String> = None;
    let mut index: usize = 2;
    while index < args.len()
        invariant
            views == string_views(args@),
            2 <= index <= args@.len(),
            assets_flags(views, 2, None) == assets_flags(views, index as nat, opt_view(raw)),
        decreases args@.len() - index,
    {
        let flag = args[index].as_str();
        assert(views[index as int] == flag@);
        if str_eq(flag, "--post-ids") {
            if index + 1 >= args.len() {
                return Err(String::from_str("--post-ids requires a value"));
            }
            if raw.is_some() {
                return Err(String::from_str("--post-ids specified more than once"));
            }
            assert(views[index + 1 as int] == args@[index + 1 as int]@);
            raw = Some(args[index + 1].clone());
            index += 2;
        } else {
            return Err(join2("unknown view assets option: ", flag));
        }
    }
    Ok(raw)
}

fn contains_id(ids: &Vec<i64>, id: i64) -> (r: bool)
    ensures
        r == ids@.contains(id),
{
    let mut i: usize = 0;
    while i < ids.len()
        invariant
            i <= ids@.len(),
            forall|j: int| 0 <= j < i ==> ids@[j] != id,
        decreases ids@.len() - i,
    {
        if ids[i] == id {
            assert(ids@[i as int] == id);
            return true;
        }
        i += 1;
    }
    false
}

/// Reads the comma-separated id list of `assets`.
pub fn parse_post_ids(raw: &str) -> (r: Result<Vec<i64>, String>)
    ensures
        match spec_post_ids(raw@) {
            Ok(ids) => r matches Ok(v) && v@ == ids,
            Err(m) => r matches Err(e) && e@ == m,
        },
{
    let v = chars_of(raw);
    let mut ids: Vec<i64> = Vec::new();
    let mut start: usize = 0;
    loop
        invariant_except_break
            start <= v@.len(),
            v@ == raw@,
            ids_from(raw@, 0, Seq::empty()) == ids_from(v@, start as int, ids@),
        ensures
            ids_from(raw@, 0, Seq::empty()) == Ok::<Seq<i64>, Seq<char>>(ids@),
        decreases v@.len() - start,
    {
        proof {
            lemma_seg_end(v@, ',', start as int);
        }
        let end = find_or_end(v.as_slice(), start, ',');
        let piece = sub_chars(v.as_slice(), start, end);
        let token = trim_chars(piece.as_slice());
        if token.len() > 0 {
            match parse_i64(token.as_slice()) {
                None => {
                    let t = string_from_chars(token.as_slice());
                    return Err(join2("--post-ids entry is not an integer: ", t.as_str()));
                },
                Some(id) => {
                    if !contains_id(&ids, id) {
                        ids.push(id);
                    }
                },
            }
        }
        if end < v.len() {
            start = end + 1;
        } else {
            break ;
        }
    }
    if ids.len() == 0 {
        return Err(String::from_str("--post-ids requires at least one id"));
    }
    if ids.len() > MAX_ASSET_IDS {
        return Err(
            join2(
                "--post-ids accepts at most 50 ids, got ",
                decimal_string(ids.len() as u64).as_str(),
            ),
        );
    }
    Ok(ids)
}

/// Reads the arguments of `view` into the command they ask for.
pub fn parse_view(args: &[String]) -> (r: Result<ViewCommand, String>)
    ensures
        match spec_view_command(string_views(args@)) {
            Ok(c) => r matches Ok(x) && x@ == c,
            Err(m) => r matches Err(e) && e@ == m,
        },
{
    let ghost views = string_views(args@);
    if args.len() == 0 {
        return Err(String::from_str("view requires a subcommand: sources | posts | assets"));
    }
    let sub = args[0].as_str();
    assert(views[0] == sub@);
    if str_eq(sub, "sources") {
        if args.len() != 2 {
            return Err(String::from_str("view sources requires <db-path>"));
        }
        assert(views[1] == args@[1]@);
        Ok(ViewCommand::Sources { db_path: args[1].clone() })
    } else if str_eq(sub, "posts") {
        if args.len() < 2 {
            return Err(String::from_str("view posts requires <db-path>"));
        }
        assert(views[1] == args@[1]@);
        let st = match parse_posts(args) {
            Ok(st) => st,
            Err(e) => {
                return Err(e);
            },
        };
        Ok(
            ViewCommand::Posts {
                db_path: args[1].clone(),
                limit: st.limit,
                after_id: st.after_id,
                source_name: st.source_name,
                include_extra: st.include_extra,
            },
        )
    } else if str_eq(sub, "assets") {
        if args.len() < 2 {
            return Err(String::from_str("view assets requires <db-path> --post-ids <id,...>"));
        }
        assert(views[1] == args@[1]@);
        let raw = match assets_raw(args) {
            Ok(Some(raw)) => raw,
            Ok(None) => {
                return Err(String::from_str("view assets requires --post-ids <id,...>"));
            },
            Err(e) => {
                return Err(e);
            },
        };
        let ids = match parse_post_ids(raw.as_str()) {
            Ok(ids) => ids,
            Err(e) => {
                return Err(e);
            },
        };
        Ok(ViewCommand::Assets { db_path: args[1].clone(), post_ids: ids })
    } else {
        Err(join2("unknown view subcommand: ", sub))
    }
}

pub open spec fn distinct(ids: Seq<i64>) -> bool {
    forall|i: int, j: int| 0 <= i < j < ids.len() ==> ids[i] != ids[j]
}

proof fn lemma_ids_from_distinct(raw: Seq<char>, start: int, acc: Seq<i64>)
    requires
        distinct(acc),
    ensures
        ids_from(raw, start, acc) matches Ok(ids) ==> distinct(ids),
    decreases raw.len() - start,
{
    if 0 <= start <= raw.len() {
        let end = seg_end(raw, ',', start);
        let token = trim(raw.subrange(start, end));
        let next = if token.len() == 0 {
            acc
        } else {
            match spec_parse_i64(token) {
                None => acc,
                Some(id) => if acc.contains(id as i64) {
                    acc
                } else {
                    acc.push(id as i64)
                },
            }
        };
        assert(distinct(next)) by {
            if token.len() > 0 && spec_parse_i64(token) is Some {
                let id = spec_parse_i64(token)->Some_0 as i64;
                if !acc.contains(id) {
                    assert forall|i: int, j: int| 0 <= i < j < next.len() implies next[i]
                        != next[j] by {
                        if j == acc.len() {
                            assert(next[i] == acc[i]);
                            assert(next[j] == id);
                        }
                    }
                }
            }
        }
        if end < raw.len() {
            lemma_seg_end(raw, ',', start);
            lemma_ids_from_distinct(raw, end + 1, next);
        }
    }
}

/// The ids of an `assets` call never repeat, and there are between one and
/// [`MAX_ASSET_IDS`] of them.
pub proof fn lemma_post_ids_distinct(raw: Seq<char>)
    ensures
        spec_post_ids(raw) matches Ok(ids) ==> 1 <= ids.len() <= MAX_ASSET_IDS && distinct(ids),
{
    lemma_ids_from_distinct(raw, 0, Seq::empty());
}


proof fn lemma_posts_shift(args: Seq<Seq<char>>, tail: Seq<Seq<char>>, k: nat, st: PostsOptsView)
    ensures
        posts_from(args + tail, args.len() + k, st) == posts_from(tail, k, st),
    decreases tail.len() - k,
{
    let all = args + tail;
    let i = args.len() + k;
    if k < tail.len() {
        assert(all[i as int] == tail[k as int]);
        if k + 1 < tail.len() {
            assert(all[i + 1 as int] == tail[k + 1 as int]);
        }
        let f = tail[k as int];
        if f == "--include-extra"@ {
            lemma_posts_shift(args, tail, k + 1, PostsOptsView { include_extra: true, ..st });
        } else if (f == "--limit"@ || f == "--after-id"@ || f == "--source"@) && k + 1 < tail.len() {
            let v = tail[k + 1 as int];
            lemma_posts_shift(args, tail, k + 2, PostsOptsView { limit: spec_parse_unsigned(v, u32::MAX as nat)->Some_0 as u32, ..st });
            lemma_posts_shift(args, tail, k + 2, PostsOptsView { after_id: Some(spec_parse_i64(v)->Some_0 as i64), ..st });
            lemma_posts_shift(args, tail, k + 2, PostsOptsView { source_name: Some(v), ..st });
        }
    }
}

/// Flags after arguments that parse take effect on the options those
/// arguments gave.
proof fn lemma_posts_append(args: Seq<Seq<char>>, i: nat, st: PostsOptsView, tail: Seq<Seq<char>>)
    requires
        i <= args.len(),
        posts_from(args, i, st) is Ok,
    ensures
        posts_from(args + tail, i, st) == posts_from(tail, 0, posts_from(args, i, st)->Ok_0),
    decreases args.len() - i,
{
    let all = args + tail;
    if i == args.len() {
        lemma_posts_shift(args, tail, 0, st);
    } else {
        let f = args[i as int];
        assert(all[i as int] == f);
        if f == "--include-extra"@ {
            lemma_posts_append(args, i + 1, PostsOptsView { include_extra: true, ..st }, tail);
        } else if f == "--limit"@ || f == "--after-id"@ || f == "--source"@ {
            assert(all[i + 1 as int] == args[i + 1 as int]);
            let v = args[i + 1 as int];
            if f == "--limit"@ {
                let n = spec_parse_unsigned(v, u32::MAX as nat)->Some_0;
                lemma_posts_append(args, i + 2, PostsOptsView { limit: n as u32, ..st }, tail);
            } else if f == "--after-id"@ {
                let n = spec_parse_i64(v)->Some_0;
                lemma_posts_append(args, i + 2, PostsOptsView { after_id: Some(n as i64), ..st }, tail);
            } else {
                lemma_posts_append(args, i + 2, PostsOptsView { source_name: Some(v), ..st }, tail);
            }
        }
    }
}

proof fn lemma_posts_flag_seen(args: Seq<Seq<char>>, i: nat, st: PostsOptsView)
    requires
        posts_from(args, i, st) matches Ok(o) && o.include_extra,
    ensures
        st.include_extra || exists|j: int| i <= j < args.len() && args[j] == "--include-extra"@,
    decreases args.len() - i,
{
    if i < args.len() {
        let f = args[i as int];
        if f == "--include-extra"@ {
        } else if f == "--limit"@ || f == "--after-id"@ || f == "--source"@ {
            let v = args[i + 1 as int];
            if f == "--limit"@ {
                let n = spec_parse_unsigned(v, u32::MAX as nat)->Some_0;
                lemma_posts_flag_seen(args, i + 2, PostsOptsView { limit: n as u32, ..st });
            } else if f == "--after-id"@ {
                let n = spec_parse_i64(v)->Some_0;
                lemma_posts_flag_seen(args, i + 2, PostsOptsView { after_id: Some(n as i64), ..st });
            } else {
                lemma_posts_flag_seen(args, i + 2, PostsOptsView { source_name: Some(v), ..st });
            }
        }
    }
}

/// Each `posts` flag does what it says: after `posts` arguments that parse,
/// `--include-extra` turns `include_extra` on, `--limit N` (a positive
/// `u32`) sets the limit to N, `--after-id N` sets the keyset start to N,
/// and `--source NAME` sets the source to NAME; nothing else changes. A
/// parsed command has `include_extra` on only when that flag is among its
/// arguments (it may also stand there as the value of another flag).
pub proof fn lemma_posts_flags(args: Seq<Seq<char>>, value: Seq<char>)
    ensures
        spec_view_command(args) matches Ok(ViewCommandView::Posts { db_path, opts }) ==> {
            &&& spec_view_command(args.push("--include-extra"@)) == Ok::<ViewCommandView, Seq<char>>(
                ViewCommandView::Posts { db_path, opts: PostsOptsView { include_extra: true, ..opts } },
            )
            &&& (spec_parse_unsigned(value, u32::MAX as nat) is Some && spec_parse_unsigned(
                value,
                u32::MAX as nat,
            )->Some_0 > 0) ==> spec_view_command(args.push("--limit"@).push(value)) == Ok::<
                ViewCommandView,
                Seq<char>,
            >(
                ViewCommandView::Posts {
                    db_path,
                    opts: PostsOptsView {
                        limit: spec_parse_unsigned(value, u32::MAX as nat)->Some_0 as u32,
                        ..opts
                    },
                },
            )
            &&& spec_parse_i64(value) is Some ==> spec_view_command(
                args.push("--after-id"@).push(value),
            ) == Ok::<ViewCommandView, Seq<char>>(
                ViewCommandView::Posts {
                    db_path,
                    opts: PostsOptsView { after_id: Some(spec_parse_i64(value)->Some_0 as i64), ..opts },
                },
            )
            &&& spec_view_command(args.push("--source"@).push(value)) == Ok::<ViewCommandView, Seq<char>>(
                ViewCommandView::Posts { db_path, opts: PostsOptsView { source_name: Some(value), ..opts } },
            )
            &&& opts.include_extra ==> exists|j: int| 2 <= j < args.len() && args[j] == "--include-extra"@
        },
{
    reveal_strlit("posts");
    reveal_strlit("sources");
    reveal_strlit("--include-extra");
    reveal_strlit("--limit");
    reveal_strlit("--after-id");
    reveal_strlit("--source");
    match spec_view_command(args) {
        Ok(ViewCommandView::Posts { db_path, opts }) => {
            assert(args[0] == "posts"@);
            assert(args[0] != "sources"@);
            assert(posts_from(args, 2, default_posts()) == Ok::<PostsOptsView, Seq<char>>(opts));
            let t1 = seq!["--include-extra"@];
            let t2 = seq!["--limit"@, value];
            let t3 = seq!["--after-id"@, value];
            let t4 = seq!["--source"@, value];
            assert(args.push("--include-extra"@) =~= args + t1);
            assert(args.push("--limit"@).push(value) =~= args + t2);
            assert(args.push("--after-id"@).push(value) =~= args + t3);
            assert(args.push("--source"@).push(value) =~= args + t4);
            lemma_posts_append(args, 2, default_posts(), t1);
            lemma_posts_append(args, 2, default_posts(), t2);
            lemma_posts_append(args, 2, default_posts(), t3);
            lemma_posts_append(args, 2, default_posts(), t4);
            assert((args + t1)[0] == args[0] && (args + t1)[1] == args[1]);
            assert((args + t2)[0] == args[0] && (args + t2)[1] == args[1]);
            assert((args + t3)[0] == args[0] && (args + t3)[1] == args[1]);
            assert((args + t4)[0] == args[0] && (args + t4)[1] == args[1]);
            assert("--include-extra"@[2] != "--limit"@[2]);
            assert("--include-extra"@[2] != "--after-id"@[2]);
            assert("--include-extra"@ != "--source"@);
            assert("--limit"@ != "--after-id"@);
            assert("--limit"@ != "--source"@);
            assert("--after-id"@ != "--source"@);
            assert(posts_from(t1, 1, PostsOptsView { include_extra: true, ..opts }) == Ok::<PostsOptsView, Seq<char>>(PostsOptsView { include_extra: true, ..opts }));
            assert(posts_from(t1, 0, opts) == Ok::<PostsOptsView, Seq<char>>(PostsOptsView { include_extra: true, ..opts }));
            if spec_parse_unsigned(value, u32::MAX as nat) is Some && spec_parse_unsigned(value, u32::MAX as nat)->Some_0 > 0 {
                let o = PostsOptsView { limit: spec_parse_unsigned(value, u32::MAX as nat)->Some_0 as u32, ..opts };
                assert(posts_from(t2, 2, o) == Ok::<PostsOptsView, Seq<char>>(o));
                assert(posts_from(t2, 0, opts) == Ok::<PostsOptsView, Seq<char>>(o));
            }
            if spec_parse_i64(value) is Some {
                let o = PostsOptsView { after_id: Some(spec_parse_i64(value)->Some_0 as i64), ..opts };
                assert(posts_from(t3, 2, o) == Ok::<PostsOptsView, Seq<char>>(o));
                assert(posts_from(t3, 0, opts) == Ok::<PostsOptsView, Seq<char>>(o));
            }
            let o4 = PostsOptsView { source_name: Some(value), ..opts };
            assert(posts_from(t4, 2, o4) == Ok::<PostsOptsView, Seq<char>>(o4));
            assert(posts_from(t4, 0, opts) == Ok::<PostsOptsView, Seq<char>>(o4));
            if opts.include_extra {
                lemma_posts_flag_seen(args, 2, default_posts());
            }
        },
        _ => {},
    }
}

} // verus!
