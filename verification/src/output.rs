//! Result-reporting types for the synchronization commands: process exit
//! codes and the summaries handed to the output layer, with their exact
//! human-readable renderings.

use vstd::prelude::*;

use crate::paths::spec_join;

verus! {

/// Exit codes reported by the command-line front end.
#[derive(Debug, Clone, Copy, PartialEq, Eq, Structural)]
pub enum ExitCode {
    Success,
    InvalidArguments,
    DataPathUnavailable,
    FilesystemError,
    UnexpectedError,
}

impl ExitCode {
    /// The numeric process exit status for this code.
    pub fn as_i32(self) -> (r: i32)
        ensures
            r == self.spec_code(),
    {
        match self {
            ExitCode::Success => 0,
            ExitCode::InvalidArguments => 2,
            ExitCode::DataPathUnavailable => 3,
            ExitCode::FilesystemError => 4,
            ExitCode::UnexpectedError => 5,
        }
    }

    /// The numeric value each code stands for.
    pub open spec fn spec_code(self) -> int {
        match self {
            ExitCode::Success => 0,
            ExitCode::InvalidArguments => 2,
            ExitCode::DataPathUnavailable => 3,
            ExitCode::FilesystemError => 4,
            ExitCode::UnexpectedError => 5,
        }
    }
}

/// The character for one decimal digit.
pub open spec fn digit_char(d: nat) -> char {
    if d == 0 {
        '0'
    } else if d == 1 {
        '1'
    } else if d == 2 {
        '2'
    } else if d == 3 {
        '3'
    } else if d == 4 {
        '4'
    } else if d == 5 {
        '5'
    } else if d == 6 {
        '6'
    } else if d == 7 {
        '7'
    } else if d == 8 {
        '8'
    } else {
        '9'
    }
}

/// The decimal rendering of a number, most significant digit first.
pub open spec fn spec_decimal(n: nat) -> Seq<char>
    decreases n,
{
    if n < 10 {
        seq![digit_char(n)]
    } else {
        spec_decimal(n / 10).push(digit_char(n % 10))
    }
}

/// The string for one decimal digit.
fn digit_str(d: u64) -> (r: &'static str)
    requires
        d < 10,
    ensures
        r@ == seq![digit_char(d as nat)],
{
    proof {
        reveal_strlit("0");
        reveal_strlit("1");
        reveal_strlit("2");
        reveal_strlit("3");
        reveal_strlit("4");
        reveal_strlit("5");
        reveal_strlit("6");
        reveal_strlit("7");
        reveal_strlit("8");
        reveal_strlit("9");
    }
    if d == 0 {
        "0"
    } else if d == 1 {
        "1"
    } else if d == 2 {
        "2"
    } else if d == 3 {
        "3"
    } else if d == 4 {
        "4"
    } else if d == 5 {
        "5"
    } else if d == 6 {
        "6"
    } else if d == 7 {
        "7"
    } else if d == 8 {
        "8"
    } else {
        "9"
    }
}

/// Renders a number in decimal.
pub fn format_u64(n: u64) -> (r: String)
    ensures
        r@ == spec_decimal(n as nat),
    decreases n,
{
    if n < 10 {
        let s = digit_str(n).to_owned();
        proof {
            assert(s@ =~= spec_decimal(n as nat));
        }
        s
    } else {
        let mut s = format_u64(n / 10);
        s.append(digit_str(n % 10));
        proof {
            assert(s@ =~= spec_decimal(n as nat));
        }
        s
    }
}

/// Renders a count in decimal.
pub fn format_usize(n: usize) -> (r: String)
    ensures
        r@ == spec_decimal(n as nat),
{
    format_u64(n as u64)
}

/// The messages joined by newlines, without a trailing newline.
pub open spec fn join_lines(msgs: Seq<Seq<char>>) -> Seq<char>
    decreases msgs.len(),
{
    if msgs.len() == 0 {
        Seq::empty()
    } else if msgs.len() == 1 {
        msgs[0]
    } else {
        join_lines(msgs.drop_last()) + seq!['\n'] + msgs.last()
    }
}

/// Joins messages with newlines.
pub fn join_with_newlines(msgs: &Vec<String>) -> (r: String)
    ensures
        r@ == join_lines(msgs.deep_view()),
{
    let mut out = String::new();
    let mut i: usize = 0;
    while i < msgs.len()
        invariant
            0 <= i <= msgs.len(),
            out@ == join_lines(msgs.deep_view().take(i as int)),
        decreases msgs.len() - i,
    {
        if i > 0 {
            out.append("\n");
        }
        out.append(msgs[i].as_str());
        proof {
            reveal_strlit("\n");
            let tk1 = msgs.deep_view().take(i + 1);
            assert(tk1.drop_last() =~= msgs.deep_view().take(i as int));
            assert(tk1.last() == msgs.deep_view()[i as int]);
            if i == 0 {
                assert(out@ =~= join_lines(tk1));
            } else {
                assert(out@ =~= join_lines(tk1));
            }
        }
        i = i + 1;
    }
    proof {
        assert(msgs.deep_view().take(msgs.deep_view().len() as int) =~= msgs.deep_view());
    }
    out
}

/// The summary of one full synchronization run, as handed to the output
/// layer.
pub struct SyncFullOutput {
    pub ok: bool,
    pub created_in_scripts: usize,
    pub created_in_data: usize,
    pub created_total: usize,
    pub existing_total: usize,
    pub duration_ms: u64,
    pub scripts_path: String,
    pub data_path: String,
    pub warnings: Vec<String>,
    pub errors: Vec<String>,
}

/// The human-readable line for a full synchronization run.
pub open spec fn spec_sync_full_human(o: SyncFullOutput) -> Seq<char> {
    if !o.ok {
        "Sync failed with "@ + spec_decimal(o.errors.len() as nat) + " error(s):\n"@ + join_lines(
            o.errors.deep_view(),
        )
    } else {
        "Synced "@ + spec_decimal((o.created_total + o.existing_total) as nat) + " directories ("@
            + spec_decimal(o.created_total as nat) + " created, "@ + spec_decimal(
            o.existing_total as nat,
        ) + " existing) in "@ + spec_decimal(o.duration_ms as nat) + "ms"@
    }
}

impl SyncFullOutput {
    /// Builds the summary; success holds exactly when no error was
    /// collected, and the total is the two sides' counts together.
    pub fn new(
        scripts_path: String,
        data_path: String,
        created_in_scripts: usize,
        created_in_data: usize,
        existing_total: usize,
        duration_ms: u64,
        warnings: Vec<String>,
        errors: Vec<String>,
    ) -> (r: SyncFullOutput)
        requires
            created_in_scripts + created_in_data <= usize::MAX,
        ensures
            r.ok == (errors@.len() == 0),
            r.created_in_scripts == created_in_scripts,
            r.created_in_data == created_in_data,
            r.created_total == created_in_scripts + created_in_data,
            r.existing_total == existing_total,
            r.duration_ms == duration_ms,
            r.scripts_path == scripts_path,
            r.data_path == data_path,
            r.warnings == warnings,
            r.errors == errors,
    {
        let ok = errors.len() == 0;
        let created_total = created_in_scripts + created_in_data;
        SyncFullOutput {
            ok,
            created_in_scripts,
            created_in_data,
            created_total,
            existing_total,
            duration_ms,
            scripts_path,
            data_path,
            warnings,
            errors,
        }
    }

    /// Renders the run for humans: the counts on success, the collected
    /// errors otherwise.
    pub fn to_human_string(&self) -> (r: String)
        requires
            self.created_total + self.existing_total <= usize::MAX,
        ensures
            r@ == spec_sync_full_human(*self),
    {
        if !self.ok {
            let mut out = String::new();
            out.append("Sync failed with ");
            let k = format_usize(self.errors.len());
            out.append(k.as_str());
            out.append(" error(s):\n");
            let joined = join_with_newlines(&self.errors);
            out.append(joined.as_str());
            proof {
                assert(out@ =~= spec_sync_full_human(*self));
            }
            out
        } else {
            let mut out = String::new();
            out.append("Synced ");
            let total = format_usize(self.created_total + self.existing_total);
            out.append(total.as_str());
            out.append(" directories (");
            let created = format_usize(self.created_total);
            out.append(created.as_str());
            out.append(" created, ");
            let existing = format_usize(self.existing_total);
            out.append(existing.as_str());
            out.append(" existing) in ");
            let dur = format_u64(self.duration_ms);
            out.append(dur.as_str());
            out.append("ms");
            proof {
                assert(out@ =~= spec_sync_full_human(*self));
            }
            out
        }
    }
}

/// The summary of one ensure-path run, as handed to the output layer.
pub struct EnsurePathOutput {
    pub ok: bool,
    pub ensured_relative: String,
    pub ensured_scripts_path: String,
    pub ensured_data_path: String,
    pub created_in_scripts_chain: usize,
    pub created_in_data_chain: usize,
    pub duration_ms: u64,
    pub scripts_path: String,
    pub data_path: String,
    pub warnings: Vec<String>,
    pub errors: Vec<String>,
}

/// The human-readable line for an ensure-path run.
pub open spec fn spec_ensure_path_human(o: EnsurePathOutput) -> Seq<char> {
    if !o.ok {
        "Ensure path failed with "@ + spec_decimal(o.errors.len() as nat) + " error(s):\n"@
            + join_lines(o.errors.deep_view())
    } else if o.created_in_scripts_chain + o.created_in_data_chain > 0 {
        "Ensured path '"@ + o.ensured_relative@ + "' ("@ + spec_decimal(
            (o.created_in_scripts_chain + o.created_in_data_chain) as nat,
        ) + " created) in "@ + spec_decimal(o.duration_ms as nat) + "ms"@
    } else {
        "Path '"@ + o.ensured_relative@ + "' already exists in "@ + spec_decimal(
            o.duration_ms as nat,
        ) + "ms"@
    }
}

impl EnsurePathOutput {
    /// Builds the summary; the ensured target paths are the roots joined
    /// with the relative path, and success holds exactly when no error
    /// was collected.
    pub fn new(
        scripts_path: String,
        data_path: String,
        relative_path: String,
        created_in_scripts_chain: usize,
        created_in_data_chain: usize,
        duration_ms: u64,
        warnings: Vec<String>,
        errors: Vec<String>,
    ) -> (r: EnsurePathOutput)
        ensures
            r.ok == (errors@.len() == 0),
            r.ensured_relative == relative_path,
            r.ensured_scripts_path@ == spec_join(scripts_path@, relative_path@),
            r.ensured_data_path@ == spec_join(data_path@, relative_path@),
            r.created_in_scripts_chain == created_in_scripts_chain,
            r.created_in_data_chain == created_in_data_chain,
            r.duration_ms == duration_ms,
            r.scripts_path == scripts_path,
            r.data_path == data_path,
            r.warnings == warnings,
            r.errors == errors,
    {
        let ok = errors.len() == 0;
        let ensured_scripts_path = crate::paths::join_path(
            scripts_path.as_str(),
            relative_path.as_str(),
        );
        let ensured_data_path = crate::paths::join_path(
            data_path.as_str(),
            relative_path.as_str(),
        );
        EnsurePathOutput {
            ok,
            ensured_relative: relative_path,
            ensured_scripts_path,
            ensured_data_path,
            created_in_scripts_chain,
            created_in_data_chain,
            duration_ms,
            scripts_path,
            data_path,
            warnings,
            errors,
        }
    }

    /// Renders the run for humans: what was ensured and how much was
    /// created on success, the collected errors otherwise.
    pub fn to_human_string(&self) -> (r: String)
        requires
            self.created_in_scripts_chain + self.created_in_data_chain <= usize::MAX,
        ensures
            r@ == spec_ensure_path_human(*self),
    {
        if !self.ok {
            let mut out = String::new();
            out.append("Ensure path failed with ");
            let k = format_usize(self.errors.len());
            out.append(k.as_str());
            out.append(" error(s):\n");
            let joined = join_with_newlines(&self.errors);
            out.append(joined.as_str());
            proof {
                assert(out@ =~= spec_ensure_path_human(*self));
            }
            out
        } else {
            let total_created = self.created_in_scripts_chain + self.created_in_data_chain;
            if total_created > 0 {
                let mut out = String::new();
                out.append("Ensured path '");
                out.append(self.ensured_relative.as_str());
                out.append("' (");
                let t = format_usize(total_created);
                out.append(t.as_str());
                out.append(" created) in ");
                let dur = format_u64(self.duration_ms);
                out.append(dur.as_str());
                out.append("ms");
                proof {
                    assert(out@ =~= spec_ensure_path_human(*self));
                }
                out
            } else {
                let mut out = String::new();
                out.append("Path '");
                out.append(self.ensured_relative.as_str());
                out.append("' already exists in ");
                let dur = format_u64(self.duration_ms);
                out.append(dur.as_str());
                out.append("ms");
                proof {
                    assert(out@ =~= spec_ensure_path_human(*self));
                }
                out
            }
        }
    }
}

} // verus!
