//! Startup notifications: reading `git log` output into commits, GitHub
//! links, and the text of the messages the bot posts when it comes online.

use vstd::prelude::*;
use crate::plugins::config::Plugin;
use crate::text::{
    append_chars, append_decimal, append_str, byte_len, byte_prefix, byte_take, chars_of, copy_range, dec,
    ends_with, ends_with_chars, first_occurrence, is_boundary, join_chars, joined, lines, lines_of, split_chars,
    split_seq, starts_with, starts_with_chars, str_eq, string_of, trim, trim_chars, utf8_len, views,
};

verus! {

/// A commit read from `git log`.
#[derive(Debug, Clone)]
pub struct CommitInfo {
    pub hash: String,
    pub subject: String,
    pub body: String,
    pub files: Vec<String>,
}

/// A commit as plain values: hash, subject, body and files.
pub open spec fn commit_view(c: CommitInfo) -> (Seq<char>, Seq<char>, Seq<char>, Seq<Seq<char>>) {
    (c.hash@, c.subject@, c.body@, c.files@.map_values(|f: String| f@))
}

/// The trimmed lines of `s` that are not empty, in order.
pub open spec fn content_lines(ls: Seq<Seq<char>>) -> Seq<Seq<char>>
    decreases ls.len(),
{
    if ls.len() == 0 {
        Seq::empty()
    } else {
        content_lines(ls.drop_last()) + if trim(ls.last()).len() > 0 {
            seq![trim(ls.last())]
        } else {
            Seq::<Seq<char>>::empty()
        }
    }
}

/// The index of the first `FILES_START` line among `ls`.
pub open spec fn files_marker(ls: Seq<Seq<char>>) -> Option<int>
    decreases ls.len(),
{
    if ls.len() == 0 {
        None
    } else if ls[0] == "FILES_START"@ {
        Some(0)
    } else {
        match files_marker(ls.drop_first()) {
            Some(i) => Some(i + 1),
            None => None,
        }
    }
}

/// The commit one `COMMIT_START` block describes: hash and subject on its
/// first two lines, the body up to `FILES_START`, the files after it.
pub open spec fn block_commit(block: Seq<char>) -> Option<(Seq<char>, Seq<char>, Seq<char>, Seq<Seq<char>>)> {
    let ls = content_lines(lines(block));
    if ls.len() < 2 {
        None
    } else {
        let idx = files_marker(ls);
        let body = match idx {
            Some(i) => if i > 2 {
                joined(ls.subrange(2, i), "\n"@)
            } else {
                Seq::<char>::empty()
            },
            None => Seq::<char>::empty(),
        };
        let files = match idx {
            Some(i) => ls.skip(i + 1),
            None => Seq::<Seq<char>>::empty(),
        };
        if ls[0].len() == 0 {
            None
        } else {
            Some((ls[0], ls[1], body, files))
        }
    }
}

/// The commits of the blocks `bs`, in order.
pub open spec fn blocks_commits(bs: Seq<Seq<char>>) -> Seq<(Seq<char>, Seq<char>, Seq<char>, Seq<Seq<char>>)>
    decreases bs.len(),
{
    if bs.len() == 0 {
        Seq::empty()
    } else {
        blocks_commits(bs.drop_last()) + match block_commit(bs.last()) {
            Some(c) => seq![c],
            None => Seq::empty(),
        }
    }
}

/// How many commits `git log` is asked for: `count` kept between 1 and 20.
pub open spec fn log_count(count: nat) -> nat {
    if count < 1 {
        1
    } else if count > 20 {
        20
    } else {
        count
    }
}

/// The arguments of the `git log` call whose output `parse_detailed_commits`
/// reads.
pub fn git_log_args(count: usize) -> (args: Vec<String>)
    ensures
        args@.len() == 4,
        args@[0]@ == "log"@,
        args@[1]@ == "-"@ + dec(log_count(count as nat)),
        args@[2]@ == "--format=COMMIT_START%n%h%n%s%n%b%nFILES_START"@,
        args@[3]@ == "--name-only"@,
{
    let n: usize = if count < 1 {
        1
    } else if count > 20 {
        20
    } else {
        count
    };
    let mut c: Vec<char> = Vec::new();
    c.push('-');
    append_decimal(&mut c, n as u64);
    assert(c@ =~= "-"@ + dec(log_count(count as nat))) by {
        reveal_strlit("-");
    }
    let mut args: Vec<String> = Vec::new();
    args.push("log".to_owned());
    args.push(string_of(c.as_slice()));
    args.push("--format=COMMIT_START%n%h%n%s%n%b%nFILES_START".to_owned());
    args.push("--name-only".to_owned());
    args
}

/// The commits that `git log --format=COMMIT_START%n%h%n%s%n%b%nFILES_START --name-only` wrote.
pub open spec fn commits_of(output: Seq<char>) -> Seq<(Seq<char>, Seq<char>, Seq<char>, Seq<Seq<char>>)> {
    blocks_commits(split_seq(output, "COMMIT_START"@).skip(1))
}

fn content_lines_of(block: &[char]) -> (out: Vec<Vec<char>>)
    ensures
        views(out@) == content_lines(lines(block@)),
{
    let ls = lines_of(block);
    let mut out: Vec<Vec<char>> = Vec::new();
    let mut i: usize = 0;
    assert(views(ls@).take(0) =~= Seq::<Seq<char>>::empty());
    while i < ls.len()
        invariant
            i <= ls@.len(),
            views(out@) == content_lines(views(ls@).take(i as int)),
        decreases ls@.len() - i,
    {
        let ghost t = views(ls@);
        assert(t.take(i + 1).drop_last() =~= t.take(i as int));
        assert(t.take(i + 1).last() == ls@[i as int]@);
        let tr = trim_chars(ls[i].as_slice());
        let ghost before = views(out@);
        if tr.len() > 0 {
            out.push(tr);
            assert(views(out@) =~= before + seq![out@.last()@]);
        } else {
            assert(views(out@) =~= before + Seq::<Seq<char>>::empty());
        }
        i = i + 1;
    }
    assert(views(ls@).take(ls@.len() as int) =~= views(ls@));
    out
}

fn find_marker(ls: &Vec<Vec<char>>) -> (r: Option<usize>)
    ensures
        match r {
            Some(i) => files_marker(views(ls@)) == Some(i as int) && i < ls@.len(),
            None => files_marker(views(ls@)) is None,
        },
{
    let marker = chars_of("FILES_START");
    let mut i: usize = 0;
    assert(views(ls@).skip(0) =~= views(ls@));
    while i < ls.len()
        invariant
            i <= ls@.len(),
            marker@ == "FILES_START"@,
            files_marker(views(ls@)) == match files_marker(views(ls@).skip(i as int)) {
                Some(k) => Some(k + i),
                None => None,
            },
        decreases ls@.len() - i,
    {
        let ghost t = views(ls@).skip(i as int);
        assert(t[0] == ls@[i as int]@);
        assert(t.drop_first() =~= views(ls@).skip(i + 1));
        if crate::text::chars_eq(ls[i].as_slice(), marker.as_slice()) {
            return Some(i);
        }
        i = i + 1;
    }
    None
}

fn commit_of_block(block: &[char]) -> (r: Option<CommitInfo>)
    ensures
        match r {
            Some(c) => block_commit(block@) == Some(commit_view(c)),
            None => block_commit(block@) is None,
        },
{
    let ls = content_lines_of(block);
    let ghost lv = views(ls@);
    if ls.len() < 2 {
        return None;
    }
    let idx = find_marker(&ls);
    let mut nl: Vec<char> = Vec::new();
    nl.push('\n');
    proof {
        reveal_strlit("\n");
        assert(nl@ =~= "\n"@);
    }
    let body: Vec<char> = match idx {
        Some(i) => {
            if i > 2 {
                let mut mid: Vec<Vec<char>> = Vec::new();
                let mut k: usize = 2;
                while k < i
                    invariant
                        2 <= k <= i,
                        i <= ls@.len(),
                        lv == views(ls@),
                        views(mid@) == lv.subrange(2, k as int),
                    decreases i - k,
                {
                    assert(lv[k as int] == ls@[k as int]@);
                    let ghost before = views(mid@);
                    mid.push(copy_range(ls[k].as_slice(), 0, ls[k].len()));
                    assert(views(mid@) =~= before.push(mid@.last()@));
                    assert(ls@[k as int]@.subrange(0, ls@[k as int]@.len() as int) =~= ls@[k as int]@);
                    assert(views(mid@) =~= lv.subrange(2, k + 1));
                    k = k + 1;
                }
                join_chars(&mid, nl.as_slice())
            } else {
                Vec::new()
            }
        },
        None => Vec::new(),
    };
    let mut files: Vec<String> = Vec::new();
    match idx {
        Some(i) => {
            let mut k: usize = i + 1;
            while k < ls.len()
                invariant
                    i < ls@.len(),
                    i + 1 <= k <= ls@.len(),
                    lv == views(ls@),
                    files@.map_values(|f: String| f@) == lv.subrange(i + 1, k as int),
                decreases ls@.len() - k,
            {
                assert(lv[k as int] == ls@[k as int]@);
                let ghost before = files@.map_values(|f: String| f@);
                files.push(string_of(ls[k].as_slice()));
                assert(files@.map_values(|f: String| f@) =~= before.push(files@.last()@));
                assert(files@.map_values(|f: String| f@) =~= lv.subrange(i + 1, k + 1));
                k = k + 1;
            }
            assert(lv.subrange(i + 1, ls@.len() as int) =~= lv.skip(i + 1));
        },
        None => {
            assert(files@.map_values(|f: String| f@) =~= Seq::<Seq<char>>::empty());
        },
    }
    if ls[0].len() == 0 {
        return None;
    }
    let c = CommitInfo {
        hash: string_of(ls[0].as_slice()),
        subject: string_of(ls[1].as_slice()),
        body: string_of(body.as_slice()),
        files,
    };
    assert(lv[0] == ls@[0]@ && lv[1] == ls@[1]@);
    Some(c)
}

/// Reads the commits that `git log` printed.
pub fn parse_detailed_commits(output: &str) -> (commits: Vec<CommitInfo>)
    ensures
        commits@.map_values(|c: CommitInfo| commit_view(c)) == commits_of(output@),
{
    let cs = chars_of(output);
    let marker = chars_of("COMMIT_START");
    let blocks = split_chars(cs.as_slice(), marker.as_slice());
    let ghost bs = views(blocks@);
    let mut commits: Vec<CommitInfo> = Vec::new();
    if blocks.len() == 0 {
        assert(bs.skip(1) =~= Seq::<Seq<char>>::empty());
        return commits;
    }
    let mut i: usize = 1;
    assert(bs.skip(1).take(0) =~= Seq::<Seq<char>>::empty());
    while i < blocks.len()
        invariant
            1 <= i <= blocks@.len(),
            bs == views(blocks@),
            commits@.map_values(|c: CommitInfo| commit_view(c)) == blocks_commits(bs.skip(1).take(i - 1)),
        decreases blocks@.len() - i,
    {
        let ghost t = bs.skip(1);
        assert(t.take(i as int).drop_last() =~= t.take(i - 1));
        assert(t.take(i as int).last() == blocks@[i as int]@);
        let ghost before = commits@.map_values(|c: CommitInfo| commit_view(c));
        match commit_of_block(blocks[i].as_slice()) {
            Some(c) => {
                commits.push(c);
                assert(commits@.map_values(|c: CommitInfo| commit_view(c)) =~= before + seq![
                    commit_view(commits@.last()),
                ]);
            },
            None => {
                assert(commits@.map_values(|c: CommitInfo| commit_view(c)) =~= before + Seq::<
                    (Seq<char>, Seq<char>, Seq<char>, Seq<Seq<char>>),
                >::empty());
            },
        }
        i = i + 1;
    }
    assert(bs.skip(1).take(blocks@.len() - 1) =~= bs.skip(1));
    commits
}

/// The web URL of a GitHub remote (SSH or HTTPS form), without `.git`.
pub open spec fn github_url(url: Seq<char>) -> Option<Seq<char>> {
    let path = if starts_with(url, "git@github.com:"@) {
        Some(url.skip(15))
    } else if starts_with(url, "https://github.com/"@) {
        Some(url.skip(19))
    } else {
        None
    };
    match path {
        Some(p) => Some(
            "https://github.com/"@ + if ends_with(p, ".git"@) {
                p.take(p.len() - 4)
            } else {
                p
            },
        ),
        None => None,
    }
}

/// Turns a git remote URL into the GitHub web URL of the repository.
pub fn parse_github_url(url: &str) -> (r: Option<String>)
    ensures
        match r {
            Some(s) => github_url(url@) == Some(s@),
            None => github_url(url@) is None,
        },
{
    proof {
        reveal_strlit("git@github.com:");
        reveal_strlit("https://github.com/");
        reveal_strlit(".git");
    }
    let cs = chars_of(url);
    let ssh = chars_of("git@github.com:");
    let https = chars_of("https://github.com/");
    let path = if starts_with_chars(cs.as_slice(), ssh.as_slice()) {
        copy_range(cs.as_slice(), 15, cs.len())
    } else if starts_with_chars(cs.as_slice(), https.as_slice()) {
        copy_range(cs.as_slice(), 19, cs.len())
    } else {
        return None;
    };
    let git = chars_of(".git");
    let trimmed = if ends_with_chars(path.as_slice(), git.as_slice()) {
        copy_range(path.as_slice(), 0, path.len() - 4)
    } else {
        path
    };
    let mut v: Vec<char> = Vec::new();
    append_str(&mut v, "https://github.com/");
    append_chars(&mut v, trimmed.as_slice());
    Some(string_of(v.as_slice()))
}

/// How a commit hash is shown: a link to the commit when the repository is known.
pub open spec fn hash_display(hash: Seq<char>, repo_url: Option<Seq<char>>) -> Seq<char> {
    match repo_url {
        Some(u) => "[`"@ + hash + "`]("@ + u + "/commit/"@ + hash + ")"@,
        None => "`"@ + hash + "`"@,
    }
}

fn append_hash(v: &mut Vec<char>, hash: &str, repo_url: Option<&str>)
    ensures
        final(v)@ == old(v)@ + hash_display(hash@, opt_ref(repo_url)),
{
    match repo_url {
        Some(u) => {
            append_str(v, "[`");
            append_str(v, hash);
            append_str(v, "`](");
            append_str(v, u);
            append_str(v, "/commit/");
            append_str(v, hash);
            append_str(v, ")");
        },
        None => {
            append_str(v, "`");
            append_str(v, hash);
            append_str(v, "`");
        },
    }
}

/// The view of an optional borrowed string.
pub open spec fn opt_ref(o: Option<&str>) -> Option<Seq<char>> {
    match o {
        Some(s) => Some(s@),
        None => None,
    }
}

/// Each file followed by a line break.
pub open spec fn file_lines(files: Seq<Seq<char>>) -> Seq<char>
    decreases files.len(),
{
    if files.len() == 0 {
        Seq::empty()
    } else {
        file_lines(files.drop_last()) + files.last() + "\n"@
    }
}

/// A commit's message in a thread, before it is cut to Discord's limit.
pub open spec fn thread_message(c: (Seq<char>, Seq<char>, Seq<char>, Seq<Seq<char>>), repo_url: Option<Seq<char>>) -> Seq<char> {
    "**"@ + c.1 + "** ("@ + hash_display(c.0, repo_url) + ")\n"@ + (if c.2.len() > 0 {
        "\n"@ + c.2 + "\n"@
    } else {
        Seq::<char>::empty()
    }) + (if c.3.len() > 0 {
        "\n**Files changed:**\n```\n"@ + file_lines(c.3) + "```"@
    } else {
        Seq::<char>::empty()
    })
}

/// A message cut to 1900 bytes with a truncation note, when it is longer.
pub open spec fn capped(msg: Seq<char>) -> Seq<char> {
    if utf8_len(msg) > 1900 {
        byte_take(msg, 1900) + "\n... (truncated)"@
    } else {
        msg
    }
}

/// `String::truncate(1900)` then a note, when the message is longer.
fn cap_message(v: Vec<char>) -> (s: String)
    requires
        utf8_len(v@) > 1900 ==> is_boundary(v@, 1900),
        utf8_len(v@) <= usize::MAX,
    ensures
        s@ == capped(v@),
{
    if crate::text::byte_len_chars(v.as_slice()) > 1900 {
        let mut cut = byte_prefix(v.as_slice(), 1900);
        append_str(&mut cut, "\n... (truncated)");
        string_of(cut.as_slice())
    } else {
        string_of(v.as_slice())
    }
}

/// A commit formatted for a thread: subject, hash, body and changed files,
/// cut to 1900 bytes.
pub fn format_commit_for_thread(commit: &CommitInfo, repo_url: Option<&str>) -> (s: String)
    requires
        utf8_len(thread_message(commit_view(*commit), opt_ref(repo_url))) > 1900 ==> is_boundary(
            thread_message(commit_view(*commit), opt_ref(repo_url)),
            1900,
        ),
        utf8_len(thread_message(commit_view(*commit), opt_ref(repo_url))) <= usize::MAX,
    ensures
        s@ == capped(thread_message(commit_view(*commit), opt_ref(repo_url))),
{
    let mut v: Vec<char> = Vec::new();
    append_str(&mut v, "**");
    append_str(&mut v, commit.subject.as_str());
    append_str(&mut v, "** (");
    append_hash(&mut v, commit.hash.as_str(), repo_url);
    append_str(&mut v, ")\n");
    proof {
        crate::text::lemma_utf8_len_at_least_len(commit.body@);
    }
    if byte_len(commit.body.as_str()) > 0 {
        append_str(&mut v, "\n");
        append_str(&mut v, commit.body.as_str());
        append_str(&mut v, "\n");
    }
    let ghost fs = commit.files@.map_values(|f: String| f@);
    if commit.files.len() > 0 {
        append_str(&mut v, "\n**Files changed:**\n```\n");
        let ghost head = v@;
        let mut i: usize = 0;
        assert(fs.take(0) =~= Seq::<Seq<char>>::empty());
        while i < commit.files.len()
            invariant
                i <= commit.files@.len(),
                fs == commit.files@.map_values(|f: String| f@),
                v@ == head + file_lines(fs.take(i as int)),
            decreases commit.files@.len() - i,
        {
            append_str(&mut v, commit.files[i].as_str());
            append_str(&mut v, "\n");
            assert(fs.take(i + 1).drop_last() =~= fs.take(i as int));
            assert(v@ =~= head + file_lines(fs.take(i + 1)));
            i = i + 1;
        }
        assert(fs.take(fs.len() as int) =~= fs);
        append_str(&mut v, "```");
    }
    assert(v@ =~= thread_message(commit_view(*commit), opt_ref(repo_url)));
    cap_message(v)
}

/// A commit body in a DM: cut to its first 200 bytes and marked when longer.
pub open spec fn dm_body(body: Seq<char>) -> Seq<char> {
    if utf8_len(body) > 200 {
        byte_take(body, 200) + "..."@
    } else {
        body
    }
}

/// The files list of a commit in a DM: at most five, then how many more.
pub open spec fn dm_files(files: Seq<Seq<char>>) -> Seq<char> {
    let shown = if files.len() > 5 {
        files.take(5)
    } else {
        files
    };
    "Files changed:\n"@ + joined(shown.map_values(|f: Seq<char>| "  `"@ + f + "`"@), "\n"@) + if files.len() > 5 {
        "\n  ... and "@ + dec((files.len() - 5) as nat) + " more\n"@
    } else {
        "\n"@
    }
}

/// One commit's entry in a DM.
pub open spec fn dm_entry(c: (Seq<char>, Seq<char>, Seq<char>, Seq<Seq<char>>), repo_url: Option<Seq<char>>) -> Seq<char> {
    "\n**"@ + c.1 + "** ("@ + hash_display(c.0, repo_url) + ")\n"@ + (if c.2.len() > 0 {
        dm_body(c.2) + "\n"@
    } else {
        Seq::<char>::empty()
    }) + (if c.3.len() > 0 {
        dm_files(c.3)
    } else {
        Seq::<char>::empty()
    })
}

/// The entries of the commits `cs` in a DM.
pub open spec fn dm_entries(cs: Seq<CommitInfo>, repo_url: Option<Seq<char>>) -> Seq<char>
    decreases cs.len(),
{
    if cs.len() == 0 {
        Seq::empty()
    } else {
        dm_entries(cs.drop_last(), repo_url) + dm_entry(commit_view(cs.last()), repo_url)
    }
}

/// The DM of recent commits, before it is cut to Discord's limit.
pub open spec fn dm_message(cs: Seq<CommitInfo>, repo_url: Option<Seq<char>>) -> Seq<char> {
    "**Recent Changes (Detailed):**\n"@ + dm_entries(cs, repo_url)
}

/// Every long commit body can be cut at byte 200.
pub open spec fn bodies_cut_cleanly(cs: Seq<CommitInfo>) -> bool {
    forall|i: int| 0 <= i < cs.len() ==> (utf8_len(#[trigger] cs[i].body@) > 200 ==> is_boundary(cs[i].body@, 200))
}

fn append_dm_files(v: &mut Vec<char>, files: &Vec<String>)
    ensures
        final(v)@ == old(v)@ + dm_files(files@.map_values(|f: String| f@)),
{
    let ghost fs = files@.map_values(|f: String| f@);
    let n: usize = if files.len() > 5 {
        5
    } else {
        files.len()
    };
    let ghost shown = if fs.len() > 5 {
        fs.take(5)
    } else {
        fs
    };
    let ghost items = shown.map_values(|f: Seq<char>| "  `"@ + f + "`"@);
    append_str(v, "Files changed:\n");
    let ghost head = v@;
    let mut i: usize = 0;
    assert(items.take(0) =~= Seq::<Seq<char>>::empty());
    while i < n
        invariant
            i <= n,
            n == shown.len(),
            n <= files@.len(),
            fs == files@.map_values(|f: String| f@),
            shown == (if fs.len() > 5 { fs.take(5) } else { fs }),
            items == shown.map_values(|f: Seq<char>| "  `"@ + f + "`"@),
            v@ == head + joined(items.take(i as int), "\n"@),
        decreases n - i,
    {
        if i > 0 {
            append_str(v, "\n");
        }
        append_str(v, "  `");
        append_str(v, files[i].as_str());
        append_str(v, "`");
        assert(items.take(i + 1).drop_last() =~= items.take(i as int));
        assert(items.take(i + 1).last() == "  `"@ + files@[i as int]@ + "`"@);
        assert(v@ =~= head + joined(items.take(i + 1), "\n"@));
        i = i + 1;
    }
    assert(items.take(n as int) =~= items);
    if files.len() > 5 {
        append_str(v, "\n  ... and ");
        append_decimal(v, (files.len() - 5) as u64);
        append_str(v, " more\n");
    } else {
        append_str(v, "\n");
    }
}

fn append_dm_body(v: &mut Vec<char>, body: &str)
    requires
        utf8_len(body@) > 200 ==> is_boundary(body@, 200),
    ensures
        final(v)@ == old(v)@ + (if body@.len() > 0 {
            dm_body(body@) + "\n"@
        } else {
            Seq::<char>::empty()
        }),
{
    proof {
        crate::text::lemma_utf8_len_at_least_len(body@);
    }
    let blen = byte_len(body);
    if blen > 0 {
        if blen > 200 {
            let bc = chars_of(body);
            let cut = byte_prefix(bc.as_slice(), 200);
            append_chars(v, cut.as_slice());
            append_str(v, "...");
        } else {
            append_str(v, body);
        }
        append_str(v, "\n");
    } else {
        assert(old(v)@ + Seq::<char>::empty() =~= old(v)@);
    }
}

fn append_dm_entry(v: &mut Vec<char>, c: &CommitInfo, repo_url: Option<&str>)
    requires
        utf8_len(c.body@) > 200 ==> is_boundary(c.body@, 200),
    ensures
        final(v)@ == old(v)@ + dm_entry(commit_view(*c), opt_ref(repo_url)),
{
    append_str(v, "\n**");
    append_str(v, c.subject.as_str());
    append_str(v, "** (");
    append_hash(v, c.hash.as_str(), repo_url);
    append_str(v, ")\n");
    append_dm_body(v, c.body.as_str());
    if c.files.len() > 0 {
        append_dm_files(v, &c.files);
    }
}

/// The recent commits as a DM: each commit's subject, hash, body (cut to
/// 200 bytes) and up to five files; the whole cut to 1900 bytes.
pub fn format_commits_for_dm(commits: &[CommitInfo], repo_url: Option<&str>) -> (s: String)
    requires
        bodies_cut_cleanly(commits@),
        utf8_len(dm_message(commits@, opt_ref(repo_url))) > 1900 ==> is_boundary(
            dm_message(commits@, opt_ref(repo_url)),
            1900,
        ),
        utf8_len(dm_message(commits@, opt_ref(repo_url))) <= usize::MAX,
    ensures
        s@ == capped(dm_message(commits@, opt_ref(repo_url))),
{
    let mut v: Vec<char> = Vec::new();
    append_str(&mut v, "**Recent Changes (Detailed):**\n");
    let ghost head = v@;
    let mut i: usize = 0;
    assert(commits@.take(0) =~= Seq::<CommitInfo>::empty());
    while i < commits.len()
        invariant
            i <= commits@.len(),
            bodies_cut_cleanly(commits@),
            v@ == head + dm_entries(commits@.take(i as int), opt_ref(repo_url)),
        decreases commits@.len() - i,
    {
        append_dm_entry(&mut v, &commits[i], repo_url);
        assert(commits@.take(i + 1).drop_last() =~= commits@.take(i as int));
        assert(commits@.take(i + 1).last() == commits@[i as int]);
        i = i + 1;
    }
    assert(commits@.take(commits@.len() as int) =~= commits@);
    cap_message(v)
}

/// The columns of a list of embed items: one column for up to three items,
/// two for up to six (at most `max_columns`), else up to three; each column
/// takes an equal share, rounded up, the first one titled.
pub open spec fn column_count(n: nat, max_columns: nat) -> nat {
    if n <= 3 {
        1
    } else if n <= 6 {
        if max_columns < 2 {
            max_columns
        } else {
            2
        }
    } else if max_columns < 3 {
        max_columns
    } else {
        3
    }
}

/// Splits embed items into columns: (field title, one item per line).
pub fn multi_column_fields(title: &str, items: &Vec<String>, max_columns: usize) -> (fields: Vec<(String, String)>)
    requires
        items@.len() == 0 || column_count(items@.len() as nat, max_columns as nat) > 0,
    ensures
        items@.len() == 0 ==> fields@.len() == 0,
        items@.len() > 0 ==> {
            let per = (items@.len() + column_count(items@.len() as nat, max_columns as nat) - 1) / (column_count(
                items@.len() as nat,
                max_columns as nat,
            ) as int);
            &&& fields@.len() == (items@.len() + per - 1) / per
            &&& forall|c: int| 0 <= c < fields@.len() ==> {
                &&& (#[trigger] fields@[c]).0@ == (if c == 0 { title@ } else { seq!['\u{200B}'] })
                &&& fields@[c].1@ == joined(
                    items@.map_values(|s: String| s@).subrange(
                        c * per,
                        if (c + 1) * per <= items@.len() { (c + 1) * per } else { items@.len() as int },
                    ),
                    "\n"@,
                )
            }
        },
{
    let n = items.len();
    if n == 0 {
        return Vec::new();
    }
    let cols: usize = if n <= 3 {
        1
    } else if n <= 6 {
        if max_columns < 2 {
            max_columns
        } else {
            2
        }
    } else if max_columns < 3 {
        max_columns
    } else {
        3
    };
    assert(n / cols + (if n % cols == 0 { 0int } else { 1int }) <= n) by (nonlinear_arith)
        requires
            cols >= 1,
            n >= 1,
    {
        if n % cols != 0 {
            assert(cols >= 2);
            assert(n / cols < n);
        }
    }
    let per: usize = n / cols + if n % cols == 0 {
        0
    } else {
        1
    };
    proof {
        let q = n / cols;
        let r = n % cols;
        assert(n == q * cols + r && 0 <= r < cols) by (nonlinear_arith)
            requires
                cols > 0,
                q == n / cols,
                r == n % cols,
        ;
        if r == 0 {
            assert((n + cols - 1) / (cols as int) == q) by (nonlinear_arith)
                requires
                    cols > 0,
                    n == q * cols,
            ;
        } else {
            assert((n + cols - 1) / (cols as int) == q + 1) by (nonlinear_arith)
                requires
                    cols > 0,
                    n == q * cols + r,
                    0 < r < cols,
            ;
        }
        assert(per >= 1) by (nonlinear_arith)
            requires
                n >= 1,
                cols >= 1,
                per == (n + cols - 1) / (cols as int),
        ;
    }
    let ghost iv = items@.map_values(|s: String| s@);
    let mut fields: Vec<(String, String)> = Vec::new();
    let mut start: usize = 0;
    let mut c: usize = 0;
    while start < n
        invariant
            per >= 1,
            n == items@.len(),
            iv == items@.map_values(|s: String| s@),
            c <= n,
            start <= n,
            start < n ==> start == c * per,
            start == n ==> c >= 1 && (c - 1) * per < n && c * per >= n,
            fields@.len() == c,
            forall|k: int| 0 <= k < c ==> {
                &&& (#[trigger] fields@[k]).0@ == (if k == 0 { title@ } else { seq!['\u{200B}'] })
                &&& fields@[k].1@ == joined(
                    iv.subrange(k * per, if (k + 1) * per <= n { (k + 1) * per } else { n as int }),
                    "\n"@,
                )
            },
        decreases n - start,
    {
        let end: usize = if n - start >= per {
            start + per
        } else {
            n
        };
        proof {
            assert((c + 1) * per == c * per + per) by (nonlinear_arith);
            assert(c * per >= c) by (nonlinear_arith)
                requires
                    per >= 1,
            ;
        }
        let mut part: Vec<Vec<char>> = Vec::new();
        let mut k: usize = start;
        while k < end
            invariant
                start <= k <= end,
                end <= n,
                n == items@.len(),
                iv == items@.map_values(|s: String| s@),
                views(part@) == iv.subrange(start as int, k as int),
            decreases end - k,
        {
            let ghost before = views(part@);
            part.push(chars_of(items[k].as_str()));
            assert(views(part@) =~= before.push(part@.last()@));
            assert(views(part@) =~= iv.subrange(start as int, k + 1));
            k = k + 1;
        }
        let mut nl: Vec<char> = Vec::new();
        nl.push('\n');
        proof {
            reveal_strlit("\n");
        }
        assert(nl@ =~= "\n"@);
        let content = join_chars(&part, nl.as_slice());
        let head = if c == 0 {
            title.to_owned()
        } else {
            let mut z: Vec<char> = Vec::new();
            z.push('\u{200B}');
            string_of(z.as_slice())
        };
        assert(end as int == if (c + 1) * per <= n { (c + 1) * per } else { n as int });
        fields.push((head, string_of(content.as_slice())));
        start = end;
        c = c + 1;
    }
    proof {
        assert(c == (n + per - 1) / (per as int)) by (nonlinear_arith)
            requires
                per >= 1,
                (c - 1) * per < n,
                c * per >= n,
                c >= 1,
        ;
    }
    fields
}

/// The first three lines of `git log --format=%h|%s` output, each
/// `hash|subject` line shown as `- subject (hash)` (the hash in code when
/// `code` is set); other lines are left out.
pub open spec fn change_lines(ls: Seq<Seq<char>>, code: bool) -> Seq<Seq<char>>
    decreases ls.len(),
{
    if ls.len() == 0 {
        Seq::empty()
    } else {
        let parts = crate::text::splitn_char(ls.last(), 2, '|');
        change_lines(ls.drop_last(), code) + if parts.len() == 2 {
            seq![
                "- "@ + parts[1] + (if code {
                    " (`"@
                } else {
                    " ("@
                }) + parts[0] + (if code {
                    "`)"@
                } else {
                    ")"@
                }),
            ]
        } else {
            Seq::<Seq<char>>::empty()
        }
    }
}

/// The recent changes summary of `commits` (one `hash|subject` per line).
pub open spec fn recent_changes_text(commits: Seq<char>, code: bool) -> Seq<char> {
    let ls = lines(commits);
    joined(change_lines(if ls.len() > 3 { ls.take(3) } else { ls }, code), "\n"@)
}

/// The recent changes summary: up to three commits, one per line.
pub fn recent_changes(commits: &str, code: bool) -> (s: String)
    ensures
        s@ == recent_changes_text(commits@, code),
{
    let cs = chars_of(commits);
    let ls = lines_of(cs.as_slice());
    let n: usize = if ls.len() > 3 {
        3
    } else {
        ls.len()
    };
    let ghost lv = views(ls@);
    let ghost first = if lv.len() > 3 { lv.take(3) } else { lv };
    let mut out: Vec<Vec<char>> = Vec::new();
    let mut i: usize = 0;
    assert(first.take(0) =~= Seq::<Seq<char>>::empty());
    while i < n
        invariant
            i <= n,
            n == first.len(),
            n <= ls@.len(),
            lv == views(ls@),
            first == (if lv.len() > 3 { lv.take(3) } else { lv }),
            views(out@) == change_lines(first.take(i as int), code),
        decreases n - i,
    {
        assert(first.take(i + 1).drop_last() =~= first.take(i as int));
        assert(first.take(i + 1).last() == ls@[i as int]@);
        let parts = crate::text::splitn_chars(ls[i].as_slice(), 2, '|');
        let ghost before = views(out@);
        if parts.len() == 2 {
            let mut e: Vec<char> = Vec::new();
            append_str(&mut e, "- ");
            append_chars(&mut e, parts[1].as_slice());
            if code {
                append_str(&mut e, " (`");
            } else {
                append_str(&mut e, " (");
            }
            append_chars(&mut e, parts[0].as_slice());
            if code {
                append_str(&mut e, "`)");
            } else {
                append_str(&mut e, ")");
            }
            assert(parts@[0]@ == views(parts@)[0] && parts@[1]@ == views(parts@)[1]);
            out.push(e);
            assert(views(out@) =~= before.push(out@.last()@));
        } else {
            assert(views(out@) =~= before + Seq::<Seq<char>>::empty());
        }
        i = i + 1;
    }
    assert(first.take(n as int) =~= first);
    let mut nl: Vec<char> = Vec::new();
    nl.push('\n');
    proof {
        reveal_strlit("\n");
    }
    assert(nl@ =~= "\n"@);
    let j = join_chars(&out, nl.as_slice());
    string_of(j.as_slice())
}

/// An update note as shown: trimmed, cut to `limit` bytes and marked when
/// longer; nothing when it is blank.
pub open spec fn update_note(message: Seq<char>, limit: nat) -> Option<Seq<char>> {
    let t = trim(message);
    if t.len() == 0 {
        None
    } else if utf8_len(t) > limit {
        Some(byte_take(t, limit) + "..."@)
    } else {
        Some(t)
    }
}

/// The update note of a message, cut to `limit` bytes.
pub fn update_note_text(message: &str, limit: usize) -> (r: Option<String>)
    requires
        utf8_len(trim(message@)) > limit ==> is_boundary(trim(message@), limit as int),
        utf8_len(trim(message@)) <= usize::MAX,
    ensures
        match r {
            Some(s) => update_note(message@, limit as nat) == Some(s@),
            None => update_note(message@, limit as nat) is None,
        },
{
    let cs = chars_of(message);
    let t = trim_chars(cs.as_slice());
    if t.len() == 0 {
        return None;
    }
    if crate::text::byte_len_chars(t.as_slice()) > limit {
        let mut cut = byte_prefix(t.as_slice(), limit);
        append_str(&mut cut, "...");
        Some(string_of(cut.as_slice()))
    } else {
        Some(string_of(t.as_slice()))
    }
}

/// The enabled plugins of `ps`, each shown as `/{command} {version}` (the
/// version in code when `code` is set, else after a `v`).
pub open spec fn plugin_items(ps: Seq<Plugin>, code: bool) -> Seq<Seq<char>>
    decreases ps.len(),
{
    if ps.len() == 0 {
        Seq::empty()
    } else {
        plugin_items(ps.drop_last(), code) + if ps.last().enabled {
            seq![
                "/"@ + ps.last().command.name@ + (if code {
                    " `"@ + ps.last().version@ + "`"@
                } else {
                    " v"@ + ps.last().version@
                }),
            ]
        } else {
            Seq::<Seq<char>>::empty()
        }
    }
}

/// The enabled plugins as list items.
pub fn enabled_plugin_items(plugins: &Vec<Plugin>, code: bool) -> (items: Vec<String>)
    ensures
        items@.map_values(|s: String| s@) == plugin_items(plugins@, code),
{
    let mut items: Vec<String> = Vec::new();
    let mut i: usize = 0;
    assert(plugins@.take(0) =~= Seq::<Plugin>::empty());
    while i < plugins.len()
        invariant
            i <= plugins@.len(),
            items@.map_values(|s: String| s@) == plugin_items(plugins@.take(i as int), code),
        decreases plugins@.len() - i,
    {
        assert(plugins@.take(i + 1).drop_last() =~= plugins@.take(i as int));
        assert(plugins@.take(i + 1).last() == plugins@[i as int]);
        let ghost before = items@.map_values(|s: String| s@);
        let p = &plugins[i];
        if p.enabled {
            let mut v: Vec<char> = Vec::new();
            append_str(&mut v, "/");
            append_str(&mut v, p.command.name.as_str());
            if code {
                append_str(&mut v, " `");
                append_str(&mut v, p.version.as_str());
                append_str(&mut v, "`");
            } else {
                append_str(&mut v, " v");
                append_str(&mut v, p.version.as_str());
            }
            let ghost piece = "/"@ + p.command.name@ + (if code {
                " `"@ + p.version@ + "`"@
            } else {
                " v"@ + p.version@
            });
            assert(v@ =~= piece);
            items.push(string_of(v.as_slice()));
            assert(items@.map_values(|s: String| s@) =~= before.push(piece));
        } else {
            assert(items@.map_values(|s: String| s@) =~= before + Seq::<Seq<char>>::empty());
        }
        i = i + 1;
    }
    assert(plugins@.take(plugins@.len() as int) =~= plugins@);
    items
}

/// The plain-text startup notice kept in the conversation history.
pub open spec fn notification_text(
    bot_name: Seq<char>,
    version: Seq<char>,
    guilds: nat,
    update: Option<Seq<char>>,
    plugins: Seq<Plugin>,
    commits: Seq<char>,
) -> Seq<char> {
    let changes = recent_changes_text(commits, false);
    "\u{1F7E2} **"@ + bot_name + " is Online!**\n\nVersion: v"@ + version + "\nConnected to "@ + dec(guilds)
        + " guild(s)"@ + (match update {
        Some(u) => match update_note(u, 500) {
            Some(d) => "\n\n**Update Notes:**\n"@ + d,
            None => Seq::<char>::empty(),
        },
        None => Seq::<char>::empty(),
    }) + (if plugin_items(plugins, false).len() > 0 {
        "\n\n**Enabled Plugins:** "@ + joined(plugin_items(plugins, false), ", "@)
    } else {
        Seq::<char>::empty()
    }) + (if commits.len() > 0 && changes.len() > 0 {
        "\n\n**Recent Changes:**\n"@ + changes
    } else {
        Seq::<char>::empty()
    })
}

/// Builds the plain-text startup notice: who came online, the version, the
/// guild count, the update notes, the enabled plugins and recent changes.
pub fn build_notification_text(
    bot_name: &str,
    version: &str,
    guilds: usize,
    update_message: Option<&str>,
    plugins: &Vec<Plugin>,
    recent_commits: &str,
) -> (s: String)
    requires
        match update_message {
            Some(u) => (utf8_len(trim(u@)) > 500 ==> is_boundary(trim(u@), 500)) && utf8_len(trim(u@)) <= usize::MAX,
            None => true,
        },
    ensures
        s@ == notification_text(bot_name@, version@, guilds as nat, opt_ref(update_message), plugins@, recent_commits@),
{
    let mut v: Vec<char> = Vec::new();
    append_str(&mut v, "\u{1F7E2} **");
    append_str(&mut v, bot_name);
    append_str(&mut v, " is Online!**\n\nVersion: v");
    append_str(&mut v, version);
    append_str(&mut v, "\nConnected to ");
    append_decimal(&mut v, guilds as u64);
    append_str(&mut v, " guild(s)");
    match update_message {
        Some(u) => match update_note_text(u, 500) {
            Some(d) => {
                append_str(&mut v, "\n\n**Update Notes:**\n");
                append_str(&mut v, d.as_str());
            },
            None => {},
        },
        None => {},
    }
    let items = enabled_plugin_items(plugins, false);
    if items.len() > 0 {
        append_str(&mut v, "\n\n**Enabled Plugins:** ");
        let mut parts: Vec<Vec<char>> = Vec::new();
        let mut k: usize = 0;
        while k < items.len()
            invariant
                k <= items@.len(),
                views(parts@) == items@.map_values(|s: String| s@).take(k as int),
            decreases items@.len() - k,
        {
            let ghost before = views(parts@);
            parts.push(chars_of(items[k].as_str()));
            assert(views(parts@) =~= before.push(parts@.last()@));
            assert(views(parts@) =~= items@.map_values(|s: String| s@).take(k + 1));
            k = k + 1;
        }
        assert(items@.map_values(|s: String| s@).take(items@.len() as int) =~= items@.map_values(|s: String| s@));
        let sep = chars_of(", ");
        let j = join_chars(&parts, sep.as_slice());
        append_chars(&mut v, j.as_slice());
    }
    proof {
        crate::text::lemma_utf8_len_at_least_len(recent_commits@);
    }
    if byte_len(recent_commits) > 0 {
        let changes = recent_changes(recent_commits, false);
        proof {
            crate::text::lemma_utf8_len_at_least_len(changes@);
        }
        if byte_len(changes.as_str()) > 0 {
            append_str(&mut v, "\n\n**Recent Changes:**\n");
            append_str(&mut v, changes.as_str());
        }
    }
    string_of(v.as_slice())
}

/// The state of the startup notifier: whether the next Ready event is the
/// first since the process started (a reconnect sends nothing).
pub struct StartupNotifier {
    first_ready: bool,
}

impl StartupNotifier {
    /// A notifier that has not seen a Ready event yet.
    pub fn new() -> (n: Self)
        ensures
            n.awaiting_first_ready(),
    {
        StartupNotifier { first_ready: true }
    }

    /// No Ready event was seen yet.
    pub closed spec fn awaiting_first_ready(&self) -> bool {
        self.first_ready
    }

    /// Records a Ready event; says whether it was the first.
    pub fn take_first_ready(&mut self) -> (first: bool)
        ensures
            first == old(self).awaiting_first_ready(),
            !final(self).awaiting_first_ready(),
    {
        let first = self.first_ready;
        self.first_ready = false;
        first
    }
}

/// Where startup notices go: nowhere unless the setting is `enabled`, and
/// nowhere without an owner or a channel (ids that do not parse are absent).
pub open spec fn notice_targets(enabled: Option<Seq<char>>, owner: Option<Seq<char>>, channel: Option<Seq<char>>) -> Option<(Option<u64>, Option<u64>)> {
    let o = match owner {
        Some(s) => crate::text::parse_u64(s),
        None => None,
    };
    let c = match channel {
        Some(s) => crate::text::parse_u64(s),
        None => None,
    };
    if enabled != Some("enabled"@) {
        None
    } else if o is None && c is None {
        None
    } else {
        Some((o, c))
    }
}

fn parse_setting(v: Option<&str>) -> (r: Option<u64>)
    ensures
        r == match opt_ref(v) {
            Some(s) => crate::text::parse_u64(s),
            None => None,
        },
{
    match v {
        Some(s) => {
            let cs = chars_of(s);
            crate::text::parse_u64_chars(cs.as_slice())
        },
        None => None,
    }
}

/// The owner and channel a startup notice goes to, from the bot settings.
pub fn startup_targets(enabled: Option<&str>, owner: Option<&str>, channel: Option<&str>) -> (r: Option<(Option<u64>, Option<u64>)>)
    ensures
        r == notice_targets(opt_ref(enabled), opt_ref(owner), opt_ref(channel)),
{
    let on = match enabled {
        Some(e) => str_eq(e, "enabled"),
        None => false,
    };
    let o = parse_setting(owner);
    let c = parse_setting(channel);
    if !on {
        return None;
    }
    if o.is_none() && c.is_none() {
        return None;
    }
    Some((o, c))
}

/// How many commits a notice details: the setting if it is a number, else 5.
pub fn commit_count(setting: Option<&str>) -> (n: usize)
    ensures
        n == match opt_ref(setting) {
            Some(s) => match crate::text::parse_u64(s) {
                Some(v) => if v <= usize::MAX {
                    v as usize
                } else {
                    5usize
                },
                None => 5usize,
            },
            None => 5usize,
        },
{
    match parse_setting(setting) {
        Some(v) => if v <= usize::MAX as u64 {
            v as usize
        } else {
            5
        },
        None => 5,
    }
}


/// The files shown for a commit in the channel summary: at most three,
/// joined by `` `, ` ``.
pub open spec fn files_joined(files: Seq<Seq<char>>) -> Seq<char>
    decreases files.len(),
{
    if files.len() == 0 {
        Seq::empty()
    } else if files.len() == 1 {
        files[0]
    } else {
        files_joined(files.drop_last()) + "`, `"@ + files.last()
    }
}

/// One commit in the channel summary.
pub open spec fn channel_entry(c: (Seq<char>, Seq<char>, Seq<char>, Seq<Seq<char>>), repo_url: Option<Seq<char>>) -> Seq<char> {
    "\n**"@ + c.1 + "** ("@ + hash_display(c.0, repo_url) + ")"@ + if c.3.len() > 0 {
        " - "@ + (if c.3.len() > 3 {
            dec(c.3.len()) + " (showing 3)"@
        } else {
            dec(c.3.len())
        }) + " file(s)"@ + "\n  `"@ + files_joined(c.3.take(if c.3.len() > 3 { 3 } else { c.3.len() as int })) + "`"@
    } else {
        Seq::<char>::empty()
    }
}

/// The summary entries of `cs`, in order.
pub open spec fn channel_entries(cs: Seq<CommitInfo>, repo_url: Option<Seq<char>>) -> Seq<char>
    decreases cs.len(),
{
    if cs.len() == 0 {
        Seq::empty()
    } else {
        channel_entries(cs.drop_last(), repo_url) + channel_entry(commit_view(cs.last()), repo_url)
    }
}

/// The single message that stands for the commit thread when no thread can
/// be opened: the first three commits, before the cut to 1900 bytes.
pub open spec fn channel_summary(cs: Seq<CommitInfo>, repo_url: Option<Seq<char>>) -> Seq<char> {
    "**Recent Changes (Detailed):**\n"@ + channel_entries(cs.take(if cs.len() > 3 { 3 } else { cs.len() as int }), repo_url)
}

fn append_channel_entry(v: &mut Vec<char>, c: &CommitInfo, repo_url: Option<&str>)
    ensures
        final(v)@ == old(v)@ + channel_entry(commit_view(*c), opt_ref(repo_url)),
{
    let ghost before = v@;
    append_str(v, "\n**");
    append_str(v, c.subject.as_str());
    append_str(v, "** (");
    append_hash(v, c.hash.as_str(), repo_url);
    append_str(v, ")");
    let ghost fs = c.files@.map_values(|f: String| f@);
    if c.files.len() > 0 {
        append_str(v, " - ");
        if c.files.len() > 3 {
            crate::text::append_decimal(v, c.files.len() as u64);
            append_str(v, " (showing 3)");
        } else {
            crate::text::append_decimal(v, c.files.len() as u64);
        }
        append_str(v, " file(s)");
        append_str(v, "\n  `");
        let m: usize = if c.files.len() > 3 {
            3
        } else {
            c.files.len()
        };
        let ghost start = v@;
        let mut j: usize = 0;
        assert(fs.take(0) =~= Seq::<Seq<char>>::empty());
        while j < m
            invariant
                m <= c.files@.len(),
                j <= m,
                fs == c.files@.map_values(|f: String| f@),
                v@ == start + files_joined(fs.take(j as int)),
            decreases m - j,
        {
            if j > 0 {
                append_str(v, "`, `");
            }
            append_str(v, c.files[j].as_str());
            assert(fs.take(j + 1).drop_last() =~= fs.take(j as int));
            assert(fs.take(j + 1).last() == c.files@[j as int]@);
            proof {
                if j == 0 {
                    assert(fs.take(1)[0] == c.files@[0]@);
                }
            }
            assert(v@ =~= start + files_joined(fs.take(j + 1)));
            j = j + 1;
        }
        append_str(v, "`");
    }
    assert(v@ =~= before + channel_entry(commit_view(*c), opt_ref(repo_url)));
}

/// The commit summary posted in the channel itself, cut to 1900 bytes with
/// a note when longer (the cut must fall on a character boundary).
pub fn format_commits_for_channel(commits: &[CommitInfo], repo_url: Option<&str>) -> (s: String)
    requires
        utf8_len(channel_summary(commits@, opt_ref(repo_url))) > 1900 ==> is_boundary(
            channel_summary(commits@, opt_ref(repo_url)),
            1900,
        ),
        utf8_len(channel_summary(commits@, opt_ref(repo_url))) <= usize::MAX,
    ensures
        s@ == capped(channel_summary(commits@, opt_ref(repo_url))),
{
    let mut v: Vec<char> = Vec::new();
    append_str(&mut v, "**Recent Changes (Detailed):**\n");
    let n: usize = if commits.len() > 3 {
        3
    } else {
        commits.len()
    };
    let ghost head = v@;
    let ghost shown = commits@.take(n as int);
    let mut i: usize = 0;
    assert(shown.take(0) =~= Seq::<CommitInfo>::empty());
    while i < n
        invariant
            n <= commits@.len(),
            i <= n,
            shown == commits@.take(n as int),
            v@ == head + channel_entries(shown.take(i as int), opt_ref(repo_url)),
        decreases n - i,
    {
        append_channel_entry(&mut v, &commits[i], repo_url);
        assert(shown.take(i + 1).drop_last() =~= shown.take(i as int));
        assert(shown.take(i + 1).last() == commits@[i as int]);
        assert(v@ =~= head + channel_entries(shown.take(i + 1), opt_ref(repo_url)));
        i = i + 1;
    }
    assert(shown.take(n as int) =~= shown);
    assert(v@ =~= channel_summary(commits@, opt_ref(repo_url)));
    cap_message(v)
}

/// The title of the startup embed.
pub fn online_title(bot_name: &str) -> (s: String)
    ensures
        s@ == bot_name@ + " is Online!"@,
{
    let mut v: Vec<char> = Vec::new();
    append_str(&mut v, bot_name);
    append_str(&mut v, " is Online!");
    string_of(v.as_slice())
}

/// The version field of the startup embed.
pub fn version_field(version: &str) -> (s: String)
    ensures
        s@ == "`v"@ + version@ + "`"@,
{
    let mut v: Vec<char> = Vec::new();
    append_str(&mut v, "`v");
    append_str(&mut v, version);
    append_str(&mut v, "`");
    string_of(v.as_slice())
}

/// The shard field of the startup embed: the shard, counted from 1, of the total.
pub fn shard_field(shard: u64, total: u64) -> (s: String)
    requires
        shard < u64::MAX,
    ensures
        s@ == dec(shard as nat + 1) + "/"@ + dec(total as nat),
{
    let mut v: Vec<char> = Vec::new();
    crate::text::append_decimal(&mut v, shard + 1);
    append_str(&mut v, "/");
    crate::text::append_decimal(&mut v, total);
    string_of(v.as_slice())
}

/// The footer of the startup embed: a relative Discord timestamp.
pub fn started_footer(unix_secs: u64) -> (s: String)
    ensures
        s@ == "Started <t:"@ + dec(unix_secs as nat) + ":R>"@,
{
    let mut v: Vec<char> = Vec::new();
    append_str(&mut v, "Started <t:");
    crate::text::append_decimal(&mut v, unix_secs);
    append_str(&mut v, ":R>");
    string_of(v.as_slice())
}

} // verus!
