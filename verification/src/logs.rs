//! Log records of worker instances and the size-based rotation of log files.

use crate::text::{decimal, push_decimal};
use vstd::prelude::*;
use vstd::string::StringExecFns;

verus! {

/// One log record: `[#<instance>] [<stream>] [<ts>] <line>` and a newline,
/// `ts` being the time it was written, in seconds since the Unix epoch.
pub open spec fn record_text(instance: u32, stream: Seq<char>, ts: u64, line: Seq<char>) -> Seq<char> {
    "[#"@ + decimal(instance as nat) + "] ["@ + stream + "] ["@ + decimal(ts as nat) + "] "@ + line + "\n"@
}

/// The record written at time `ts` for one output line of an instance.
pub fn log_record(instance: u32, stream: &str, ts: u64, line: &str) -> (r: String)
    ensures
        r@ == record_text(instance, stream@, ts, line@),
{
    let mut r = "[#".to_owned();
    push_decimal(&mut r, instance as u64);
    r.append("] [");
    r.append(stream);
    r.append("] [");
    push_decimal(&mut r, ts);
    r.append("] ");
    r.append(line);
    r.append("\n");
    r
}

/// Writing `record_len` more bytes to a file holding `written` would pass `max_bytes`:
/// rotate first.
pub fn needs_rotation(written: u64, record_len: usize, max_bytes: u64) -> (b: bool)
    ensures
        b == (written + record_len > max_bytes),
{
    (written as u128) + (record_len as u128) > (max_bytes as u128)
}

/// The renames of a rotation keeping `max_files` files: `<log>.<i>` becomes
/// `<log>.<i+1>` for `i` from `max_files - 1` down to 1 (each where the file exists),
/// then the log itself becomes `<log>.1`.
pub open spec fn rotation_order(max_files: u32) -> Seq<u32> {
    Seq::new(if max_files > 1 { (max_files - 1) as nat } else { 0 }, |k: int| (max_files - 1 - k) as u32)
}

/// The indices `i` whose file moves to `i + 1`, in the order to move them.
pub fn rotation_steps(max_files: u32) -> (v: Vec<u32>)
    ensures
        v@ == rotation_order(max_files),
{
    let mut v: Vec<u32> = Vec::new();
    if max_files <= 1 {
        assert(v@ =~= rotation_order(max_files));
        return v;
    }
    let mut i: u32 = max_files - 1;
    while i >= 1
        invariant
            max_files > 1,
            0 <= i <= max_files - 1,
            v@.len() == max_files - 1 - i,
            forall|k: int| 0 <= k < v@.len() ==> v@[k] == (max_files - 1 - k) as u32,
        decreases i,
    {
        v.push(i);
        i = i - 1;
    }
    assert(v@ =~= rotation_order(max_files));
    v
}

} // verus!
