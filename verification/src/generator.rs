//! Synthetic log entries, for trying the viewer on a file that grows.
//!
//! The random draws come from the `rand` crate. What the drawn numbers
//! decide, and the text of an entry, is computed here.

use rand::rngs::ThreadRng;
use rand::Rng;
use vstd::prelude::*;
use vstd::string::StringExecFns;

verus! {

/// Number of level names.
pub const LEVEL_COUNT: usize = 4;

/// Number of sample messages.
pub const MESSAGE_COUNT: usize = 12;

/// A level is drawn from the numbers below this one.
pub const LEVEL_ROLLS: u64 = 10;

/// Shortest pause between two entries, in milliseconds.
pub const MIN_DELAY_MS: u64 = 500;

/// The pause between two entries stays below this, in milliseconds.
pub const MAX_DELAY_MS: u64 = 3000;

/// The sequence number of the first entry.
pub const FIRST_SEQUENCE: u64 = 1000;

/// The thread-local random number generator of the `rand` crate.
#[verifier::external_type_specification]
#[verifier::external_body]
pub struct ExThreadRng(ThreadRng);

/// `Rng::gen_range` on the half-open range from `low` to `high`: the value
/// lies in the range. Which value it is depends on the generator and is not
/// stated. The range must not be empty, or the call panics.
#[verifier::external_body]
fn draw(rng: &mut ThreadRng, low: u64, high: u64) -> (value: u64)
    requires
        low < high,
    ensures
        low <= value < high,
{
    rng.gen_range(low..high)
}

/// The level names, by index.
pub open spec fn level_names() -> Seq<Seq<char>> {
    seq!["INFO"@, "DEBUG"@, "WARNING"@, "ERROR"@]
}

/// The sample messages, by index.
pub open spec fn messages() -> Seq<Seq<char>> {
    seq![
        "Processing user request"@,
        "Database query completed in 150ms"@,
        "Cache miss detected for key 'user_profile'"@,
        "Connection attempt failed: timeout"@,
        "Authentication successful for user 'admin'"@,
        "Data validation error: missing required field"@,
        "Background task started: report generation"@,
        "Memory usage optimized: freed 250MB"@,
        "Request received from 192.168.1.1"@,
        "File not found: config.json"@,
        "API rate limit reached for client ID #1234"@,
        "Successfully processed batch job #89754"@,
    ]
}

/// The level name at `index`.
pub fn level_name(index: usize) -> (name: &'static str)
    requires
        index < LEVEL_COUNT,
    ensures
        name@ == level_names()[index as int],
{
    if index == 0 {
        "INFO"
    } else if index == 1 {
        "DEBUG"
    } else if index == 2 {
        "WARNING"
    } else {
        "ERROR"
    }
}

/// The sample message at `index`.
pub fn message(index: usize) -> (text: &'static str)
    requires
        index < MESSAGE_COUNT,
    ensures
        text@ == messages()[index as int],
{
    if index == 0 {
        "Processing user request"
    } else if index == 1 {
        "Database query completed in 150ms"
    } else if index == 2 {
        "Cache miss detected for key 'user_profile'"
    } else if index == 3 {
        "Connection attempt failed: timeout"
    } else if index == 4 {
        "Authentication successful for user 'admin'"
    } else if index == 5 {
        "Data validation error: missing required field"
    } else if index == 6 {
        "Background task started: report generation"
    } else if index == 7 {
        "Memory usage optimized: freed 250MB"
    } else if index == 8 {
        "Request received from 192.168.1.1"
    } else if index == 9 {
        "File not found: config.json"
    } else if index == 10 {
        "API rate limit reached for client ID #1234"
    } else {
        "Successfully processed batch job #89754"
    }
}

/// The level index that a roll below ten decides, together with a coin
/// that is tossed only for the last roll: seven rolls in ten give `INFO`,
/// two give `DEBUG`, and the last gives `WARNING` on heads and `ERROR` on
/// tails.
pub open spec fn level_for(roll: nat, heads: bool) -> nat {
    if roll <= 6 {
        0
    } else if roll <= 8 {
        1
    } else if heads {
        2
    } else {
        3
    }
}

/// Whether a roll leaves the level to the coin.
pub fn needs_toss(roll: u64) -> (toss: bool)
    requires
        roll < LEVEL_ROLLS,
    ensures
        toss == (roll == 9),
        !toss ==> level_for(roll as nat, true) == level_for(roll as nat, false),
{
    roll == 9
}

/// The level index for a roll and a coin.
pub fn level_index(roll: u64, heads: bool) -> (index: usize)
    requires
        roll < LEVEL_ROLLS,
    ensures
        index == level_for(roll as nat, heads),
        index < LEVEL_COUNT,
{
    if roll <= 6 {
        0
    } else if roll <= 8 {
        1
    } else if heads {
        2
    } else {
        3
    }
}

/// Draws the roll that decides a level.
pub fn roll_level(rng: &mut ThreadRng) -> (roll: u64)
    ensures
        roll < LEVEL_ROLLS,
{
    draw(rng, 0, LEVEL_ROLLS)
}

/// Draws the index of a sample message.
pub fn pick_message(rng: &mut ThreadRng) -> (index: usize)
    ensures
        index < MESSAGE_COUNT,
{
    draw(rng, 0, MESSAGE_COUNT as u64) as usize
}

/// Draws the pause before the next entry, in milliseconds.
pub fn pick_delay_ms(rng: &mut ThreadRng) -> (delay: u64)
    ensures
        MIN_DELAY_MS <= delay < MAX_DELAY_MS,
{
    draw(rng, MIN_DELAY_MS, MAX_DELAY_MS)
}

/// The character of a decimal digit.
pub open spec fn digit(d: nat) -> char {
    if d == 0 {
        '0'
    } else if d == 1 {
        '1'
    } else if d == 2 {
        '2'
    } else if d == 3 {
        '3'
    } else if d == 4 {
        '4'
    } else if d == 5 {
        '5'
    } else if d == 6 {
        '6'
    } else if d == 7 {
        '7'
    } else if d == 8 {
        '8'
    } else {
        '9'
    }
}

/// A number in decimal, without leading zeros.
pub open spec fn decimal(n: nat) -> Seq<char>
    decreases n,
{
    if n < 10 {
        seq![digit(n)]
    } else {
        decimal(n / 10).push(digit(n % 10))
    }
}

/// The text of an entry: timestamp, level name and sequence number in
/// square brackets, then the message and a line feed.
pub open spec fn entry_line(
    timestamp: Seq<char>,
    level: Seq<char>,
    sequence: nat,
    message: Seq<char>,
) -> Seq<char> {
    seq!['['] + timestamp + seq![' ', '-', ' '] + level + seq![' ', '-', ' ', '#'] + decimal(
        sequence,
    ) + seq![']', ' '] + message + seq!['\n']
}

/// The character of the decimal digit `d`.
fn digit_char(d: u64) -> (c: char)
    requires
        d < 10,
    ensures
        c == digit(d as nat),
{
    if d == 0 {
        '0'
    } else if d == 1 {
        '1'
    } else if d == 2 {
        '2'
    } else if d == 3 {
        '3'
    } else if d == 4 {
        '4'
    } else if d == 5 {
        '5'
    } else if d == 6 {
        '6'
    } else if d == 7 {
        '7'
    } else if d == 8 {
        '8'
    } else {
        '9'
    }
}

/// Appends a number in decimal to a text.
pub fn push_decimal(text: &mut String, n: u64)
    ensures
        final(text)@ == old(text)@ + decimal(n as nat),
    decreases n,
{
    if n >= 10 {
        push_decimal(text, n / 10);
    }
    text.push(digit_char(n % 10));
    assert(text@ =~= old(text)@ + decimal(n as nat));
}

/// Builds the text of an entry from its timestamp, the indices of its
/// level and message, and its sequence number.
pub fn entry_text(timestamp: &str, level: usize, sequence: u64, message_index: usize) -> (line:
    String)
    requires
        level < LEVEL_COUNT,
        message_index < MESSAGE_COUNT,
    ensures
        line@ == entry_line(
            timestamp@,
            level_names()[level as int],
            sequence as nat,
            messages()[message_index as int],
        ),
{
    let mut line = String::new();
    line.push('[');
    line.append(timestamp);
    line.push(' ');
    line.push('-');
    line.push(' ');
    line.append(level_name(level));
    line.push(' ');
    line.push('-');
    line.push(' ');
    line.push('#');
    push_decimal(&mut line, sequence);
    line.push(']');
    line.push(' ');
    line.append(message(message_index));
    line.push('\n');
    proof {
        assert(line@ =~= entry_line(
            timestamp@,
            level_names()[level as int],
            sequence as nat,
            messages()[message_index as int],
        ));
    }
    line
}

} // verus!
