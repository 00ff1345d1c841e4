use vstd::prelude::*;
use vstd::string::StringExecFns;

verus! {

/// The kind of an action on an accessor.
#[derive(Clone, Copy, Debug, PartialEq, Eq, Structural)]
pub enum Operation {
    CreateDir,
    Read,
    Write,
    Copy,
    Rename,
    Stat,
    Delete,
    List,
    Presign,
}

impl Operation {
    /// The operation's name as it appears in log lines.
    pub fn into_static(self) -> (r: &'static str)
        ensures
            r@ == operation_name(self),
    {
        match self {
            Operation::CreateDir => "create_dir",
            Operation::Read => "read",
            Operation::Write => "write",
            Operation::Copy => "copy",
            Operation::Rename => "rename",
            Operation::Stat => "stat",
            Operation::Delete => "delete",
            Operation::List => "list",
            Operation::Presign => "presign",
        }
    }
}

pub open spec fn operation_name(op: Operation) -> Seq<char> {
    match op {
        Operation::CreateDir => "create_dir"@,
        Operation::Read => "read"@,
        Operation::Write => "write"@,
        Operation::Copy => "copy"@,
        Operation::Rename => "rename"@,
        Operation::Stat => "stat"@,
        Operation::Delete => "delete"@,
        Operation::List => "list"@,
        Operation::Presign => "presign"@,
    }
}

/// Per-object descriptor.
#[derive(Clone, Debug)]
pub struct Metadata {
    pub content_length: u64,
    pub content_type: Option<String>,
    pub etag: Option<String>,
    pub version: Option<String>,
}

impl Metadata {
    /// Metadata of an object of the given length, with nothing else known.
    pub fn with_content_length(content_length: u64) -> (r: Metadata)
        ensures
            r.content_length == content_length,
            r.content_type is None,
            r.etag is None,
            r.version is None,
    {
        Metadata { content_length, content_type: None, etag: None, version: None }
    }
}

/// One uploaded part of a multipart session.
#[derive(Clone, Debug)]
pub struct MultipartPart {
    /// The number of the part, starting from 0.
    pub part_number: usize,
    /// The etag of the part.
    pub etag: String,
    /// The checksum of the part.
    pub checksum: Option<String>,
}

/// The decimal digit for `d`, below ten.
pub open spec fn digit_char(d: nat) -> char {
    seq!['0', '1', '2', '3', '4', '5', '6', '7', '8', '9'][d as int]
}

/// The decimal text of `n`, without leading zeros.
pub open spec fn decimal(n: nat) -> Seq<char>
    decreases n,
{
    if n < 10 {
        seq![digit_char(n)]
    } else {
        decimal(n / 10).push(digit_char(n % 10))
    }
}

/// The text of one decimal digit.
fn digit_str(d: u64) -> (r: &'static str)
    requires
        d < 10,
    ensures
        r@ == seq![digit_char(d as nat)],
{
    proof {
            reveal_strlit("0");
            reveal_strlit("1");
            reveal_strlit("2");
            reveal_strlit("3");
            reveal_strlit("4");
            reveal_strlit("5");
            reveal_strlit("6");
            reveal_strlit("7");
            reveal_strlit("8");
            reveal_strlit("9");
    }
    match d {
        0 => "0",
        1 => "1",
        2 => "2",
        3 => "3",
        4 => "4",
        5 => "5",
        6 => "6",
        7 => "7",
        8 => "8",
        9 => "9",
        _ => "9",
    }
}

/// The decimal text of `n`.
pub fn decimal_string(n: u64) -> (r: String)
    ensures
        r@ == decimal(n as nat),
    decreases n,
{
    if n < 10 {
        String::from_str(digit_str(n))
    } else {
        let mut s = decimal_string(n / 10);
        s.append(digit_str(n % 10));
        proof {
            assert(s@ =~= decimal((n / 10) as nat).push(digit_char((n % 10) as nat)));
        }
        s
    }
}

} // verus!
