//! Naming of exported frames: the zero-padded sequence suffix, the directory
//! and file names of a run, and the decision of what to write for a frame.

use vstd::prelude::*;
use vstd::string::StringExecFns;

verus! {

/// The character of a decimal digit.
pub open spec fn digit_char(d: nat) -> char
    recommends
        d < 10,
{
    if d == 0 {
        '0'
    } else if d == 1 {
        '1'
    } else if d == 2 {
        '2'
    } else if d == 3 {
        '3'
    } else if d == 4 {
        '4'
    } else if d == 5 {
        '5'
    } else if d == 6 {
        '6'
    } else if d == 7 {
        '7'
    } else if d == 8 {
        '8'
    } else {
        '9'
    }
}

/// The decimal digit that a character shows; zero for any other character.
pub open spec fn digit_value(c: char) -> nat {
    if c == '1' {
        1
    } else if c == '2' {
        2
    } else if c == '3' {
        3
    } else if c == '4' {
        4
    } else if c == '5' {
        5
    } else if c == '6' {
        6
    } else if c == '7' {
        7
    } else if c == '8' {
        8
    } else if c == '9' {
        9
    } else {
        0
    }
}

/// The decimal digits of `n`, most significant first, without leading zeros.
pub open spec fn spec_decimal(n: nat) -> Seq<char>
    decreases n,
{
    if n < 10 {
        seq![digit_char(n)]
    } else {
        spec_decimal(n / 10).push(digit_char(n % 10))
    }
}

/// The number that a string of decimal digits shows.
pub open spec fn spec_value(digits: Seq<char>) -> nat
    decreases digits.len(),
{
    if digits.len() == 0 {
        0
    } else {
        10 * spec_value(digits.drop_last()) + digit_value(digits.last())
    }
}

/// `count` zeros.
pub open spec fn zeros(count: int) -> Seq<char> {
    Seq::new(
        if count > 0 {
            count as nat
        } else {
            0
        },
        |i: int| '0',
    )
}

/// The suffix of the file of frame `n`: its decimal digits, padded with zeros
/// on the left to four characters, and never cut.
pub open spec fn spec_suffix(n: nat) -> Seq<char> {
    zeros(4 - spec_decimal(n).len()) + spec_decimal(n)
}

/// The directory of a run: `{timestamp}_{label}`.
pub open spec fn spec_directory_name(timestamp: Seq<char>, label: Seq<char>) -> Seq<char> {
    timestamp + seq!['_'] + label
}

/// The file of a frame, directory included:
/// `{timestamp}_{label}/{timestamp}_{label}_{suffix}.png`.
pub open spec fn spec_file_name(timestamp: Seq<char>, label: Seq<char>, sequence: nat) -> Seq<char> {
    spec_directory_name(timestamp, label) + seq!['/'] + spec_directory_name(timestamp, label) + seq!['_']
        + spec_suffix(sequence) + seq!['.', 'p', 'n', 'g']
}

/// A number below ten has one digit, below a hundred two, below a thousand
/// three, and any other at least four.
pub proof fn lemma_decimal_len(n: nat)
    ensures
        n < 10 ==> spec_decimal(n).len() == 1,
        10 <= n < 100 ==> spec_decimal(n).len() == 2,
        100 <= n < 1000 ==> spec_decimal(n).len() == 3,
        1000 <= n ==> spec_decimal(n).len() >= 4,
    decreases n,
{
    if n >= 10 {
        lemma_decimal_len(n / 10);
    }
}

/// The digits of a number show that number.
pub proof fn lemma_decimal_value(n: nat)
    ensures
        spec_value(spec_decimal(n)) == n,
    decreases n,
{
    if n < 10 {
        let digits = spec_decimal(n);
        assert(digits.drop_last().len() == 0);
        assert(spec_value(digits.drop_last()) == 0);
        assert(digits.last() == digit_char(n));
        assert(digit_value(digit_char(n)) == n);
    } else {
        lemma_decimal_value(n / 10);
        let digits = spec_decimal(n);
        assert(digits.drop_last() == spec_decimal(n / 10));
        assert(digits.last() == digit_char(n % 10));
        assert(digit_value(digit_char(n % 10)) == n % 10);
    }
}

/// Zeros on the left do not change what a string of digits shows.
pub proof fn lemma_leading_zeros(count: int, digits: Seq<char>)
    ensures
        spec_value(zeros(count) + digits) == spec_value(digits),
    decreases digits.len(), count,
{
    if digits.len() > 0 {
        lemma_leading_zeros(count, digits.drop_last());
        assert((zeros(count) + digits).drop_last() == zeros(count) + digits.drop_last());
        assert((zeros(count) + digits).last() == digits.last());
    } else if count > 0 {
        assert(zeros(count) + digits == zeros(count));
        assert(zeros(count).drop_last() == zeros(count - 1));
        lemma_leading_zeros(count - 1, digits);
        assert(zeros(count - 1) + digits == zeros(count - 1));
    } else {
        assert(zeros(count) + digits == digits);
    }
}

/// The suffix of a frame has at least four characters, exactly four below ten
/// thousand, and it shows the number of the frame: two frames never share one.
pub proof fn lemma_suffix(n: nat)
    ensures
        spec_suffix(n).len() >= 4,
        n < 10000 ==> spec_suffix(n).len() == 4,
        n >= 1000 ==> spec_suffix(n) == spec_decimal(n),
        spec_value(spec_suffix(n)) == n,
{
    lemma_decimal_len(n);
    lemma_decimal_value(n);
    lemma_leading_zeros(4 - spec_decimal(n).len(), spec_decimal(n));
    if n >= 1000 {
        assert(spec_suffix(n) == spec_decimal(n));
        if n < 10000 {
            lemma_decimal_len(n / 10);
        }
    }
}

fn digit_text(d: u64) -> (text: &'static str)
    requires
        d < 10,
    ensures
        text@ == seq![digit_char(d as nat)],
{
    proof {
        reveal_strlit("0");
        reveal_strlit("1");
        reveal_strlit("2");
        reveal_strlit("3");
        reveal_strlit("4");
        reveal_strlit("5");
        reveal_strlit("6");
        reveal_strlit("7");
        reveal_strlit("8");
        reveal_strlit("9");
    }
    let text = if d == 0 {
        "0"
    } else if d == 1 {
        "1"
    } else if d == 2 {
        "2"
    } else if d == 3 {
        "3"
    } else if d == 4 {
        "4"
    } else if d == 5 {
        "5"
    } else if d == 6 {
        "6"
    } else if d == 7 {
        "7"
    } else if d == 8 {
        "8"
    } else {
        "9"
    };
    assert(text@ =~= seq![digit_char(d as nat)]);
    text
}

/// Appends the decimal digits of `n` to `out`.
pub fn push_decimal(out: &mut String, n: u64)
    ensures
        final(out)@ == old(out)@ + spec_decimal(n as nat),
    decreases n,
{
    if n >= 10 {
        push_decimal(out, n / 10);
    }
    out.append(digit_text(n % 10));
    assert(out@ =~= old(out)@ + spec_decimal(n as nat));
}

/// The four-digit, zero-padded suffix of frame `sequence`; longer where the
/// number has more than four digits.
pub fn sequence_suffix(sequence: u64) -> (suffix: String)
    ensures
        suffix@ == spec_suffix(sequence as nat),
{
    proof {
        reveal_strlit("000");
        reveal_strlit("00");
        reveal_strlit("0");
        lemma_decimal_len(sequence as nat);
    }
    let mut suffix = String::new();
    if sequence < 10 {
        suffix.append("000");
    } else if sequence < 100 {
        suffix.append("00");
    } else if sequence < 1000 {
        suffix.append("0");
    }
    assert(suffix@ =~= zeros(4 - spec_decimal(sequence as nat).len()));
    push_decimal(&mut suffix, sequence);
    suffix
}

/// The directory that the frames of a run are written to.
pub fn directory_name(timestamp: &str, label: &str) -> (name: String)
    ensures
        name@ == spec_directory_name(timestamp@, label@),
{
    proof {
        reveal_strlit("_");
    }
    let mut name = String::new();
    name.append(timestamp);
    name.append("_");
    name.append(label);
    assert(name@ =~= spec_directory_name(timestamp@, label@));
    name
}

/// The file that frame `sequence` of a run is written to, directory included.
pub fn file_name(timestamp: &str, label: &str, sequence: u64) -> (name: String)
    ensures
        name@ == spec_file_name(timestamp@, label@, sequence as nat),
{
    proof {
        reveal_strlit("_");
        reveal_strlit("/");
        reveal_strlit(".png");
    }
    let directory = directory_name(timestamp, label);
    let suffix = sequence_suffix(sequence);
    let mut name = String::new();
    name.append(directory.as_str());
    name.append("/");
    name.append(directory.as_str());
    name.append("_");
    name.append(suffix.as_str());
    name.append(".png");
    assert(name@ =~= spec_file_name(timestamp@, label@, sequence as nat));
    name
}

/// The export configuration of a run.
pub struct ExportSettings {
    /// Whether frames are written at all.
    pub enabled: bool,
    /// Frames with a sequence number from this on are not written.
    pub frame_limit: u32,
    /// The text that names the run in its directory and files.
    pub label: String,
    /// The time at which the run started, as text.
    pub timestamp: String,
}

/// What to write for one finished frame.
pub struct ExportStep {
    /// The directory to create before anything is written, if any.
    pub create_directory: Option<String>,
    /// The file to write the frame to, if any.
    pub write_file: Option<String>,
}

impl ExportSettings {
    /// Whether the directory of the run is to be created for frame `sequence`:
    /// once, on the first frame of a run that exports.
    pub open spec fn creates_directory(self, sequence: u64) -> bool {
        self.enabled && sequence == 0
    }

    /// Whether frame `sequence` is to be written: while it is below the limit
    /// of a run that exports.
    pub open spec fn writes_frame(self, sequence: u64) -> bool {
        self.enabled && sequence < self.frame_limit
    }

    /// What to write for the finished frame `sequence`.
    pub fn step_for(&self, sequence: u64) -> (step: ExportStep)
        ensures
            step.create_directory.is_some() <==> self.creates_directory(sequence),
            step.create_directory matches Some(directory) ==> directory@ == spec_directory_name(
                self.timestamp@,
                self.label@,
            ),
            step.write_file.is_some() <==> self.writes_frame(sequence),
            step.write_file matches Some(file) ==> file@ == spec_file_name(
                self.timestamp@,
                self.label@,
                sequence as nat,
            ),
    {
        let create_directory = if self.enabled && sequence == 0 {
            Some(directory_name(self.timestamp.as_str(), self.label.as_str()))
        } else {
            None
        };
        let write_file = if self.enabled && sequence < self.frame_limit as u64 {
            Some(file_name(self.timestamp.as_str(), self.label.as_str(), sequence))
        } else {
            None
        };
        ExportStep { create_directory, write_file }
    }
}

} // verus!
