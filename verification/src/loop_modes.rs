//! The display modes and the keys that switch between them, and the mode loop driven by keys.
use vstd::prelude::*;

verus! {

/// A display mode.
#[derive(Debug, Clone, Copy, PartialEq, Eq, Structural)]
pub enum Mode {
    Top,
    Qps,
    Cmd,
    Innodb,
    Status,
}

/// A key as the mode loop understands it.
#[derive(Debug, Clone, Copy, PartialEq, Eq, Structural)]
pub enum Key {
    Top,
    Qps,
    Cmd,
    Innodb,
    Status,
    Quit,
    Other,
}

/// The meaning of a typed character.
pub open spec fn key_of(c: char) -> Key {
    if c == 't' {
        Key::Top
    } else if c == 'm' {
        Key::Qps
    } else if c == 'c' {
        Key::Cmd
    } else if c == 'I' {
        Key::Innodb
    } else if c == 'S' {
        Key::Status
    } else if c == 'q' {
        Key::Quit
    } else {
        Key::Other
    }
}

/// The mode after a key: `None` when the key quits, the same mode for other keys.
pub open spec fn next_mode(current: Mode, key: Key) -> Option<Mode> {
    match key {
        Key::Top => Some(Mode::Top),
        Key::Qps => Some(Mode::Qps),
        Key::Cmd => Some(Mode::Cmd),
        Key::Innodb => Some(Mode::Innodb),
        Key::Status => Some(Mode::Status),
        Key::Quit => None,
        Key::Other => Some(current),
    }
}

/// Reads a typed character as a key.
pub fn parse_key(input: char) -> (r: Key)
    ensures
        r == key_of(input),
{
    match input {
        't' => Key::Top,
        'm' => Key::Qps,
        'c' => Key::Cmd,
        'I' => Key::Innodb,
        'S' => Key::Status,
        'q' => Key::Quit,
        _ => Key::Other,
    }
}

/// The mode after `key` in mode `current`; `None` when the key quits.
pub fn switch_mode(current: Mode, key: Key) -> (r: Option<Mode>)
    ensures
        r == next_mode(current, key),
{
    match key {
        Key::Top => Some(Mode::Top),
        Key::Qps => Some(Mode::Qps),
        Key::Cmd => Some(Mode::Cmd),
        Key::Innodb => Some(Mode::Innodb),
        Key::Status => Some(Mode::Status),
        Key::Quit => None,
        Key::Other => Some(current),
    }
}

/// How many refresh cycles the mode loop runs: one in batch mode.
pub fn run_cycles(batchmode: bool) -> (r: usize)
    ensures
        r == (if batchmode {
            1usize
        } else {
            2usize
        }),
{
    if batchmode {
        1
    } else {
        2
    }
}

/// The mode after the keys in turn, starting in `m`; `None` once a key quits.
pub open spec fn mode_after_keys(m: Mode, keys: Seq<char>) -> Option<Mode>
    decreases keys.len(),
{
    if keys.len() == 0 {
        Some(m)
    } else {
        match next_mode(m, key_of(keys[0])) {
            Some(n) => mode_after_keys(n, keys.drop_first()),
            None => None,
        }
    }
}

/// The keys the loop reads: in batch mode only the first.
pub open spec fn keys_read(batchmode: bool, keys: Seq<char>) -> Seq<char> {
    if batchmode && keys.len() > 1 {
        keys.take(1)
    } else {
        keys
    }
}

/// Runs the mode loop over `keys`, starting in `initial`; `None` when a key quits.
pub fn run_event_loop_with_keys(initial: Mode, batchmode: bool, keys: &[char]) -> (r: Option<Mode>)
    ensures
        r == mode_after_keys(initial, keys_read(batchmode, keys@)),
{
    let mut mode = initial;
    let n = keys.len();
    let mut idx: usize = 0;
    let ghost read = keys_read(batchmode, keys@);
    let ghost limit: int = read.len() as int;
    proof {
        assert(read.skip(0) == read);
    }
    while idx < n
        invariant
            n == keys@.len(),
            read == keys_read(batchmode, keys@),
            limit == read.len(),
            idx <= limit,
            forall|k: int| 0 <= k < limit ==> read[k] == keys@[k],
            limit == (if batchmode && n > 1 {
                1
            } else {
                n as int
            }),
            mode_after_keys(initial, read) == mode_after_keys(mode, read.skip(idx as int)),
        ensures
            idx == limit,
            mode_after_keys(initial, read) == mode_after_keys(mode, read.skip(idx as int)),
        decreases n - idx,
    {
        if batchmode && idx >= 1 {
            break;
        }
        let key = parse_key(keys[idx]);
        proof {
            assert(read.skip(idx as int)[0] == keys@[idx as int]);
            assert(read.skip(idx as int).drop_first() == read.skip(idx + 1));
        }
        match switch_mode(mode, key) {
            Some(next) => {
                mode = next;
            },
            None => {
                return None;
            },
        }
        idx = idx + 1;
    }
    proof {
        assert(read.skip(idx as int).len() == 0);
    }
    Some(mode)
}


/// The mode loop ends exactly when one of the keys is `q`; every other key keeps it running.
pub proof fn law_loop_ends_only_on_quit(m: Mode, keys: Seq<char>)
    ensures
        (mode_after_keys(m, keys) is None) == keys.contains('q'),
    decreases keys.len(),
{
    if keys.len() > 0 {
        let rest = keys.drop_first();
        if keys[0] != 'q' {
            let n = next_mode(m, key_of(keys[0])).unwrap();
            law_loop_ends_only_on_quit(n, rest);
            if rest.contains('q') {
                let i = choose|i: int| 0 <= i < rest.len() && rest[i] == 'q';
                assert(keys[i + 1] == 'q');
            }
            if keys.contains('q') {
                let i = choose|i: int| 0 <= i < keys.len() && keys[i] == 'q';
                assert(rest[i - 1] == 'q');
            }
        } else {
            assert(keys[0] == 'q');
        }
    }
}

/// In batch mode only the first key counts.
pub proof fn law_batch_mode_reads_one_key(m: Mode, keys: Seq<char>)
    requires
        keys.len() >= 1,
    ensures
        mode_after_keys(m, keys_read(true, keys)) == next_mode(m, key_of(keys[0])),
{
    let r = keys_read(true, keys);
    assert(r.len() == 1 && r[0] == keys[0]);
    assert(r.drop_first().len() == 0);
    if let Some(n) = next_mode(m, key_of(keys[0])) {
        assert(mode_after_keys(n, r.drop_first()) == Some(n));
    }
}

} // verus!
