//! Git targets and the judges that grade them.
use vstd::prelude::*;
use vstd::std_specs::cmp::PartialEqSpecImpl;
use vstd::string::*;

use crate::pipeline::error::PipelineError;
use crate::text::{decode_text, trim, trim_white_space, utf8_text};
use vstd::utf8::{decode_utf8, valid_utf8};

verus! {

/// The commit that a freshly named repository points at.
pub open spec fn head_commit() -> Seq<char> {
    seq!['H', 'E', 'A', 'D']
}

/// The suffix that marks a bare git repository URL.
pub open spec fn git_suffix() -> Seq<char> {
    seq!['.', 'g', 'i', 't']
}

/// What follows the last `/` of `s` (all of `s` where it has none).
pub open spec fn last_segment(s: Seq<char>) -> Seq<char>
    decreases s.len(),
{
    if s.len() == 0 {
        s
    } else if s.last() == '/' {
        Seq::empty()
    } else {
        last_segment(s.drop_last()).push(s.last())
    }
}

/// `s` without a trailing `.git`, where it has one.
pub open spec fn strip_git_suffix(s: Seq<char>) -> Seq<char> {
    if s.len() >= 4 && s.subrange(s.len() - 4, s.len() as int) == git_suffix() {
        s.subrange(0, s.len() - 4)
    } else {
        s
    }
}

/// The name of the repository behind `url`: its last path segment without `.git`.
pub open spec fn repo_name(url: Seq<char>) -> Seq<char> {
    strip_git_suffix(last_segment(url))
}

/// The last segment of `s` starts right after the last `/`.
pub proof fn lemma_last_segment_from(s: Seq<char>, k: int)
    requires
        0 <= k <= s.len(),
        k == 0 || s[k - 1] == '/',
        forall|i: int| k <= i < s.len() ==> s[i] != '/',
    ensures
        last_segment(s) == s.subrange(k, s.len() as int),
    decreases s.len(),
{
    if k == s.len() {
        if s.len() > 0 {
            assert(s.last() == '/');
        }
        assert(s.subrange(k, s.len() as int) =~= Seq::<char>::empty());
    } else {
        let t = s.drop_last();
        assert(k == 0 || t[k - 1] == '/');
        lemma_last_segment_from(t, k);
        assert(t.subrange(k, t.len() as int).push(s.last()) =~= s.subrange(k, s.len() as int));
    }
}

/// No segment that follows the last `/` holds a `/`.
pub proof fn lemma_last_segment_has_no_slash(s: Seq<char>)
    ensures
        forall|i: int| 0 <= i < last_segment(s).len() ==> last_segment(s)[i] != '/',
    decreases s.len(),
{
    if s.len() > 0 && s.last() != '/' {
        let t = s.drop_last();
        lemma_last_segment_has_no_slash(t);
        assert forall|i: int| 0 <= i < last_segment(s).len() implies last_segment(s)[i] != '/' by {
            if i < last_segment(t).len() {
                assert(last_segment(s)[i] == last_segment(t)[i]);
            }
        }
    }
}

/// A repository's name never holds a `/`.
pub proof fn lemma_repo_name_has_no_slash(url: Seq<char>)
    ensures
        forall|i: int| 0 <= i < repo_name(url).len() ==> repo_name(url)[i] != '/',
{
    lemma_last_segment_has_no_slash(url);
}

/// The name of `prefix + seg`, where the prefix is empty or ends in `/` and the
/// segment holds no `/`, is the segment without a trailing `.git`: the name is
/// the last item of the URL split on `/`.
pub proof fn lemma_repo_name_of_path(prefix: Seq<char>, seg: Seq<char>)
    requires
        prefix.len() == 0 || prefix.last() == '/',
        forall|i: int| 0 <= i < seg.len() ==> seg[i] != '/',
    ensures
        repo_name(prefix + seg) == strip_git_suffix(seg),
{
    let s = prefix + seg;
    let k = prefix.len() as int;
    assert forall|i: int| k <= i < s.len() implies s[i] != '/' by {
        assert(s[i] == seg[i - k]);
    }
    lemma_last_segment_from(s, k);
    assert(s.subrange(k, s.len() as int) =~= seg);
}

/// Whether `s` ends with `.git`.
pub open spec fn ends_with_git(s: Seq<char>) -> bool {
    s.len() >= 4 && s[s.len() - 4] == '.' && s[s.len() - 3] == 'g' && s[s.len() - 2] == 'i'
        && s[s.len() - 1] == 't'
}

/// The name keeps the whole last segment: where the URL is a prefix (empty or
/// ending in `/`) followed by a segment of any length that holds no `/` and
/// does not end in `.git`, the name is that segment.
pub proof fn lemma_repo_name_keeps_segment(prefix: Seq<char>, seg: Seq<char>)
    requires
        prefix.len() == 0 || prefix.last() == '/',
        forall|i: int| 0 <= i < seg.len() ==> seg[i] != '/',
        !ends_with_git(seg),
    ensures
        repo_name(prefix + seg) == seg,
{
    lemma_repo_name_of_path(prefix, seg);
    if seg.len() >= 4 && seg.subrange(seg.len() - 4, seg.len() as int) == git_suffix() {
        let t = seg.subrange(seg.len() - 4, seg.len() as int);
        assert(t[0] == seg[seg.len() - 4]);
        assert(t[1] == seg[seg.len() - 3]);
        assert(t[2] == seg[seg.len() - 2]);
        assert(t[3] == seg[seg.len() - 1]);
    }
}

/// The name drops exactly one trailing `.git`: where the URL is a prefix (empty
/// or ending in `/`), a segment of any length that holds no `/`, and `.git`,
/// the name is that segment.
pub proof fn lemma_repo_name_drops_git(prefix: Seq<char>, seg: Seq<char>)
    requires
        prefix.len() == 0 || prefix.last() == '/',
        forall|i: int| 0 <= i < seg.len() ==> seg[i] != '/',
    ensures
        repo_name(prefix + (seg + seq!['.', 'g', 'i', 't'])) == seg,
{
    let g = seg + seq!['.', 'g', 'i', 't'];
    assert forall|i: int| 0 <= i < g.len() implies g[i] != '/' by {
        if i < seg.len() {
            assert(g[i] == seg[i]);
        }
    }
    lemma_repo_name_of_path(prefix, g);
    assert(g.subrange(g.len() - 4, g.len() as int) =~= git_suffix());
    assert(g.subrange(0, g.len() - 4) =~= seg);
}

/// A repository at a given commit.
#[derive(Debug, Clone, Hash)]
pub struct GitTarget {
    pub url: String,
    pub commit: String,
}

impl PartialEq for GitTarget {
    fn eq(&self, other: &Self) -> (r: bool) {
        self.url == other.url && self.commit == other.commit
    }
}

impl Eq for GitTarget {}

impl PartialEqSpecImpl for GitTarget {
    open spec fn obeys_eq_spec() -> bool {
        true
    }

    open spec fn eq_spec(&self, other: &Self) -> bool {
        self.url@ == other.url@ && self.commit@ == other.commit@
    }
}

impl GitTarget {
    /// The repository at `url`, at its head.
    pub fn repo(url: String) -> (r: Self)
        ensures
            r.url == url,
            r.commit@ == head_commit(),
    {
        proof {
            reveal_strlit("HEAD");
        }
        GitTarget { url, commit: "HEAD".to_owned() }
    }

    /// The same repository at `commit`.
    pub fn on_commit(self, commit: String) -> (r: Self)
        ensures
            r.url == self.url,
            r.commit == commit,
    {
        let mut t = self;
        t.commit = commit;
        t
    }

    /// The repository's name: the last segment of its URL, without `.git`.
    pub fn get_name(&self) -> (r: &str)
        ensures
            r@ == repo_name(self.url@),
    {
        let url = self.url.as_str();
        let n = url.unicode_len();
        let mut k: usize = n;
        while k > 0 && url.get_char(k - 1) != '/'
            invariant
                n == url@.len(),
                k <= n,
                forall|i: int| k <= i < n ==> url@[i] != '/',
            decreases k,
        {
            k = k - 1;
        }
        proof {
            lemma_last_segment_from(url@, k as int);
        }
        let seg = url.substring_char(k, n);
        let m = n - k;
        if m >= 4 && seg.get_char(m - 4) == '.' && seg.get_char(m - 3) == 'g' && seg.get_char(m - 2)
            == 'i' && seg.get_char(m - 1) == 't' {
            assert(seg@.subrange(m - 4, m as int) =~= git_suffix());
            seg.substring_char(0, m - 4)
        } else {
            proof {
                if m >= 4 {
                    let tail = seg@.subrange(m - 4, m as int);
                    assert(tail[0] == seg@[m - 4]);
                    assert(tail[1] == seg@[m - 3]);
                    assert(tail[2] == seg@[m - 2]);
                    assert(tail[3] == seg@[m - 1]);
                    assert(tail != git_suffix());
                }
            }
            seg
        }
    }

    /// How the target is shown: `GitTarget(<name>::<commit>)`.
    pub fn to_string(&self) -> (r: String)
        ensures
            r@ == "GitTarget("@ + repo_name(self.url@) + "::"@ + self.commit@ + ")"@,
    {
        let mut s = "GitTarget(".to_owned();
        s.append(self.get_name());
        s.append("::");
        s.append(self.commit.as_str());
        s.append(")");
        s
    }
}

/// A command line: the program to run and its arguments.
pub struct Invocation {
    pub program: String,
    pub args: Vec<String>,
}

/// The text of each argument.
pub open spec fn arg_texts(args: Seq<String>) -> Seq<Seq<char>> {
    args.map_values(|a: String| a@)
}

/// A judge that grades a target inside a container through the judge script.
pub struct DockerJudge {
    pub image: String,
    pub copy_to: String,
    pub result_path: String,
}

/// A judge that gives every target a zero.
pub struct DummyJudge;

impl DockerJudge {
    /// The judge script's command line for `target`, with the code under `from_path`.
    pub fn judge_command(&self, target: &GitTarget, from_path: &str) -> (r: Invocation)
        ensures
            r.program@ == "./scripts/judge.sh"@,
            arg_texts(r.args@) == seq![
                self.image@,
                target.url@,
                from_path@,
                self.copy_to@,
                self.result_path@,
                target.commit@,
            ],
    {
        let mut args: Vec<String> = Vec::new();
        args.push(self.image.clone());
        args.push(target.url.clone());
        args.push(from_path.to_owned());
        args.push(self.copy_to.clone());
        args.push(self.result_path.clone());
        args.push(target.commit.clone());
        let r = Invocation { program: "./scripts/judge.sh".to_owned(), args };
        assert(arg_texts(r.args@) =~= seq![
            self.image@,
            target.url@,
            from_path@,
            self.copy_to@,
            self.result_path@,
            target.commit@,
        ]);
        r
    }

    /// Reads the judge script's result: a failed run is a `TriggerError`,
    /// output that is not UTF-8 is `MalformedOutput`, and otherwise the score
    /// is the printed text without surrounding white space.
    pub fn judge_verdict(success: bool, stdout: Vec<u8>) -> (r: Result<String, PipelineError>)
        ensures
            !success ==> r == Err::<String, PipelineError>(PipelineError::TriggerError),
            success && utf8_text(stdout@) is None ==> r == Err::<String, PipelineError>(
                PipelineError::MalformedOutput,
            ),
            success && utf8_text(stdout@) is Some ==> r is Ok && r->Ok_0@ == trim_white_space(
                utf8_text(stdout@)->0,
            ),
            success && valid_utf8(stdout@) ==> r is Ok && r->Ok_0@ == trim_white_space(
                decode_utf8(stdout@),
            ),
            success && !valid_utf8(stdout@) ==> r == Err::<String, PipelineError>(
                PipelineError::MalformedOutput,
            ),
    {
        if !success {
            return Err(PipelineError::TriggerError);
        }
        match decode_text(stdout) {
            Some(text) => Ok(trim(text.as_str()).to_owned()),
            None => Err(PipelineError::MalformedOutput),
        }
    }
}

} // verus!
