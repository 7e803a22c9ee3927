//! Script execution through an external interpreter: the script is staged
//! into a scoped temporary file, the interpreter is spawned on that file's
//! path followed by the caller's arguments, and the child's standard output
//! is either inherited or captured line by line.

use vstd::prelude::*;

verus! {

use vstd::string::StrSliceExecFns;
use vstd::string::StringExecFns;
use crate::text::{
    find_char_from,
    lemma_find_char_from,
    lemma_find_char_offset,
    chop_cr,
    split_lines,
    join_lines_nl,
};
use crate::tmp_file::SharableTmpFile;

#[verifier::external_type_specification]
#[verifier::external_body]
pub struct ExIoError(std::io::Error);

/// ASCII-case-insensitive character equality.
pub open spec fn ci_eq(a: char, b: char) -> bool {
    a == b || (0x41 <= a as int <= 0x5a && a as int + 32 == b as int) || (0x41 <= b as int <= 0x5a
        && b as int + 32 == a as int)
}

fn ci_eq_char(a: char, b: char) -> (r: bool)
    ensures
        r == ci_eq(a, b),
{
    let ai = a as u32;
    let bi = b as u32;
    ai == bi || (0x41 <= ai && ai <= 0x5a && ai + 32 == bi) || (0x41 <= bi && bi <= 0x5a && bi + 32
        == ai)
}

/// `needle` matches `hay` at position `p`, ASCII-case-insensitively.
pub open spec fn ci_match_at(hay: Seq<char>, needle: Seq<char>, p: int) -> bool {
    &&& 0 <= p
    &&& p + needle.len() <= hay.len()
    &&& forall|k: int| 0 <= k < needle.len() ==> ci_eq(hay[p + k], needle[k])
}

/// `needle` occurs somewhere in `hay`, ASCII-case-insensitively.
pub open spec fn contains_ci(hay: Seq<char>, needle: Seq<char>) -> bool {
    exists|p: int| ci_match_at(hay, needle, p)
}

fn ci_match_at_exec(hay: &str, needle: &str, p: usize) -> (r: bool)
    requires
        p + needle@.len() <= hay@.len(),
    ensures
        r == ci_match_at(hay@, needle@, p as int),
{
    let hn = hay.unicode_len();
    let nn = needle.unicode_len();
    let mut k: usize = 0;
    while k < nn
        invariant
            k <= nn,
            nn == needle@.len(),
            hn == hay@.len(),
            p + nn <= hn,
            forall|t: int| 0 <= t < k ==> ci_eq(hay@[p + t], needle@[t]),
        decreases nn - k,
    {
        if !ci_eq_char(hay.get_char(p + k), needle.get_char(k)) {
            return false;
        }
        k += 1;
    }
    true
}

fn contains_ci_str(hay: &str, needle: &str) -> (r: bool)
    ensures
        r == contains_ci(hay@, needle@),
{
    let hn = hay.unicode_len();
    let nn = needle.unicode_len();
    if nn > hn {
        return false;
    }
    let mut p: usize = 0;
    while p <= hn - nn
        invariant
            nn <= hn,
            p <= hn - nn + 1,
            hn == hay@.len(),
            nn == needle@.len(),
            forall|q: int| 0 <= q < p ==> !ci_match_at(hay@, needle@, q),
        decreases hn - nn + 1 - p,
    {
        if ci_match_at_exec(hay, needle, p) {
            return true;
        }
        p += 1;
    }
    false
}

/// The file-name suffix that signals the script's dialect to the interpreter:
/// a PowerShell-family interpreter (name containing "powershell", compared
/// ASCII-case-insensitively) gets `.ps1`; every other interpreter gets no
/// suffix.
pub fn interpreter_suffix(shell: &str) -> (r: &'static str)
    ensures
        contains_ci(shell@, "powershell"@) ==> r@ == ".ps1"@,
        !contains_ci(shell@, "powershell"@) ==> r@ == ""@,
{
    if contains_ci_str(shell, "powershell") {
        ".ps1"
    } else {
        ""
    }
}

/// Captured process output re-assembled the way a line reader delivers it:
/// split at `\n`, a carriage return before the `\n` dropped, and every line
/// followed by a single `\n` in the result.
pub fn normalize_lines(s: &str) -> (r: String)
    ensures
        r@ == join_lines_nl(split_lines(s@)),
{
    let n = s.unicode_len();
    let mut out = String::new();
    let mut i: usize = 0;
    proof {
        assert(s@.subrange(0, n as int) =~= s@);
    }
    while i < n
        invariant
            i <= n,
            n == s@.len(),
            out@ + join_lines_nl(split_lines(s@.subrange(i as int, n as int))) == join_lines_nl(
                split_lines(s@),
            ),
        decreases n - i,
    {
        let ghost rest0 = s@.subrange(i as int, n as int);
        let ghost out0 = out@;
        match crate::text::find_char_at(s, i, '\n') {
            Some(j) => {
                proof {
                    lemma_find_char_from(s@, i as int, '\n');
                    lemma_find_char_offset(s@, i as int, '\n');
                }
                let line_end = if j > i && s.get_char(j - 1) == '\r' {
                    j - 1
                } else {
                    j
                };
                let piece = s.substring_char(i, line_end);
                out.append(piece);
                out.push('\n');
                proof {
                    assert(find_char_from(rest0, 0, '\n') == Some(j - i));
                    assert(rest0.subrange(0, j - i) =~= s@.subrange(i as int, j as int));
                    assert(chop_cr(rest0.subrange(0, j - i)) =~= s@.subrange(
                        i as int,
                        line_end as int,
                    )) by {
                        let line = s@.subrange(i as int, j as int);
                        if j > i && s@[j - 1] == '\r' {
                            assert(line.last() == s@[j - 1]);
                            assert(line.drop_last() =~= s@.subrange(i as int, j - 1));
                        }
                    };
                    let rest1 = s@.subrange(j + 1, n as int);
                    assert(rest0.subrange(j - i + 1, rest0.len() as int) =~= rest1);
                    let lines0 = split_lines(rest0);
                    assert(lines0 == seq![chop_cr(rest0.subrange(0, j - i))] + split_lines(rest1));
                    assert(lines0.first() == s@.subrange(i as int, line_end as int));
                    assert(lines0.drop_first() =~= split_lines(rest1));
                    assert(join_lines_nl(lines0) == s@.subrange(i as int, line_end as int)
                        + seq!['\n'] + join_lines_nl(split_lines(rest1)));
                    assert(out@ =~= out0 + s@.subrange(i as int, line_end as int) + seq!['\n']);
                    assert(out@ + join_lines_nl(split_lines(rest1)) =~= out0 + join_lines_nl(
                        lines0,
                    ));
                }
                i = j + 1;
            },
            None => {
                let piece = s.substring_char(i, n);
                out.append(piece);
                out.push('\n');
                proof {
                    lemma_find_char_offset(s@, i as int, '\n');
                    assert(find_char_from(rest0, 0, '\n') is None);
                    assert(split_lines(rest0) == seq![rest0]);
                    assert(join_lines_nl(seq![rest0]) == rest0 + seq!['\n'] + join_lines_nl(
                        seq![rest0].drop_first(),
                    ));
                    assert(seq![rest0].drop_first() =~= Seq::<Seq<char>>::empty());
                    assert(join_lines_nl(Seq::<Seq<char>>::empty()) == Seq::<char>::empty());
                    assert(out@ + Seq::<char>::empty() =~= out@);
                    assert(out@ =~= out0 + rest0 + seq!['\n']);
                    assert(s@.subrange(n as int, n as int) =~= Seq::<char>::empty());
                    assert(split_lines(Seq::<char>::empty()) == Seq::<Seq<char>>::empty());
                }
                i = n;
            },
        }
    }
    proof {
        assert(s@.subrange(n as int, n as int) =~= Seq::<char>::empty());
        assert(out@ + Seq::<char>::empty() =~= out@);
    }
    out
}

/// Runs scripts through an external interpreter. The two operations differ
/// only in what happens to the child's standard output: `run_script` leaves
/// it connected to the caller's own streams, `run_script_and_get_stdout`
/// captures it.
pub trait ScriptRunner {
    /// Runs `script`, handing the staged script path and then `args` to the
    /// interpreter, and waits for the child to finish. The exit status is not
    /// inspected; only launch failures are errors.
    fn run_script(&self, script: &str, args: &[&str]) -> Result<(), std::io::Error>;

    /// Runs `script` as `run_script` does, but captures the child's standard
    /// output and returns it, each captured line followed by a line
    /// terminator.
    fn run_script_and_get_stdout(&self, script: &str, args: &[&str]) -> Result<
        String,
        std::io::Error,
    >;
}

/// Relies on `subprocess::Exec`: starts `shell` with `path` as its first
/// argument followed by `args`, in order, leaves the standard streams
/// inherited, and waits for the process to finish. The exit status is
/// discarded.
#[verifier::external_body]
fn spawn_join(shell: &str, path: &str, args: &[&str]) -> (r: Result<(), std::io::Error>) {
    let status = subprocess::Exec::cmd(shell).arg(path).args(args.iter().copied()).join()?;
    let _ = status;
    Ok(())
}

/// Relies on `subprocess::Exec` with a piped standard output: starts `shell`
/// with `path` as its first argument followed by `args`, in order, reads the
/// child's standard output to its end, waits for the process to finish, and
/// decodes the bytes as UTF-8. Invalid UTF-8 is reported as an InvalidData
/// I/O error; the exit status is discarded.
#[verifier::external_body]
fn spawn_capture(shell: &str, path: &str, args: &[&str]) -> (r: Result<String, std::io::Error>) {
    let mut job = subprocess::Exec::cmd(shell).arg(path).args(args.iter().copied()).stdout(
        subprocess::Redirection::Pipe,
    ).start()?;
    let mut buf: Vec<u8> = Vec::new();
    if let Some(mut child_out) = job.stdout.take() {
        std::io::Read::read_to_end(&mut child_out, &mut buf)?;
    }
    job.wait()?;
    match String::from_utf8(buf) {
        Ok(s) => Ok(s),
        Err(e) => Err(std::io::Error::new(std::io::ErrorKind::InvalidData, e)),
    }
}

/// The one interpreter-backed `ScriptRunner`: stages each script into a
/// `SharableTmpFile` and spawns the configured shell on it.
pub struct SimpleScriptRunner {
    shell: String,
}

impl View for SimpleScriptRunner {
    type V = Seq<char>;

    /// The configured interpreter name.
    closed spec fn view(&self) -> Seq<char> {
        self.shell@
    }
}

impl SimpleScriptRunner {
    pub fn new(program: &str) -> (r: Self)
        ensures
            r@ == program@,
    {
        SimpleScriptRunner { shell: String::from_str(program) }
    }
}

impl ScriptRunner for SimpleScriptRunner {
    fn run_script(&self, script: &str, args: &[&str]) -> Result<(), std::io::Error> {
        let suffix = interpreter_suffix(self.shell.as_str());
        let tmp_file = SharableTmpFile::new(script, suffix)?;
        spawn_join(self.shell.as_str(), tmp_file.path_str(), args)
    }

    fn run_script_and_get_stdout(&self, script: &str, args: &[&str]) -> (r: Result<
        String,
        std::io::Error,
    >)
        ensures
            r matches Ok(out) ==> exists|raw: Seq<char>|
                out@ == join_lines_nl(#[trigger] split_lines(raw)),
    {
        let suffix = interpreter_suffix(self.shell.as_str());
        let tmp_file = SharableTmpFile::new(script, suffix)?;
        let raw = spawn_capture(self.shell.as_str(), tmp_file.path_str(), args)?;
        Ok(normalize_lines(raw.as_str()))
    }
}

} // verus!
