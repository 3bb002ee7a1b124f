//! The filesystem resize dispatcher: which external tool resizes a
//! filesystem kind, and the size argument handed to it.
use vstd::prelude::*;
use crate::geometry::{ResizeOperation, MEBIBYTE, MEGABYTE, div_toward_zero};

verus! {

/// The filesystem kinds a partition may hold.
#[derive(PartialEq, Eq, Structural, Clone, Copy, Debug)]
pub enum FileSystemType {
    Btrfs,
    Exfat,
    Ext2,
    Ext3,
    Ext4,
    F2fs,
    Fat16,
    Fat32,
    Ntfs,
    Swap,
    Xfs,
}

/// How a resize tool expects its size argument: the final size or the
/// change, in mebibytes, megabytes or sectors.
#[derive(PartialEq, Eq, Structural, Clone, Copy, Debug)]
pub enum ResizeUnit {
    AbsoluteMebibyte,
    AbsoluteMegabyte,
    AbsoluteSectors,
    RelativeMebibyte,
    RelativeMegabyte,
    RelativeSectors,
}

/// An external resize tool: the command, the arguments that precede the
/// partition path, and the unit of the size argument that follows it.
pub struct ResizeTool {
    pub command: &'static str,
    pub args: Vec<&'static str>,
    pub unit: ResizeUnit,
}

#[derive(PartialEq, Eq, Structural, Clone, Copy, Debug)]
pub enum ResizeError {
    /// No resize tool is known for this filesystem.
    UnsupportedFileSystem(Option<FileSystemType>),
}

/// Whether a resize tool is known for the filesystem.
pub open spec fn has_resize_tool(fs: Option<FileSystemType>) -> bool {
    match fs {
        Some(FileSystemType::Ext2) | Some(FileSystemType::Ext3) | Some(
            FileSystemType::Ext4,
        ) => true,
        _ => false,
    }
}

/// Looks up the resize tool of a filesystem. The ext family is resized by
/// `resize2fs`, sized in absolute mebibytes; other kinds have no tool. Swap
/// never reaches a resize.
pub fn resize_tool(fs: Option<FileSystemType>) -> (r: Result<ResizeTool, ResizeError>)
    requires
        fs != Some(FileSystemType::Swap),
    ensures
        r is Ok <==> has_resize_tool(fs),
        r matches Ok(tool) ==> tool.command@ == "resize2fs"@ && tool.args@.len() == 0
            && tool.unit == ResizeUnit::AbsoluteMebibyte,
        r matches Err(e) ==> e == ResizeError::UnsupportedFileSystem(fs),
{
    match fs {
        Some(FileSystemType::Ext2) | Some(FileSystemType::Ext3) | Some(FileSystemType::Ext4) => {
            Ok(ResizeTool { command: "resize2fs", args: Vec::new(), unit: ResizeUnit::AbsoluteMebibyte })
        },
        _ => Err(ResizeError::UnsupportedFileSystem(fs)),
    }
}

/// The character of a decimal digit.
pub open spec fn digit(d: nat) -> char {
    if d == 0 { '0' }
    else if d == 1 { '1' }
    else if d == 2 { '2' }
    else if d == 3 { '3' }
    else if d == 4 { '4' }
    else if d == 5 { '5' }
    else if d == 6 { '6' }
    else if d == 7 { '7' }
    else if d == 8 { '8' }
    else { '9' }
}

/// The decimal text of a natural number, without leading zeros.
pub open spec fn decimal(n: nat) -> Seq<char>
    decreases n,
{
    if n < 10 {
        seq![digit(n)]
    } else {
        decimal(n / 10).push(digit(n % 10))
    }
}

/// The decimal text of an integer, with a minus sign when negative.
pub open spec fn signed_decimal(i: int) -> Seq<char> {
    if i < 0 {
        seq!['-'] + decimal((-i) as nat)
    } else {
        decimal(i as nat)
    }
}

/// Whether the size in `unit` can be computed without overflow.
pub open spec fn size_fits(unit: ResizeUnit, op: ResizeOperation) -> bool {
    match unit {
        ResizeUnit::AbsoluteMebibyte | ResizeUnit::AbsoluteMegabyte => op.new.start <= op.new.end
            && op.new.len() * op.sector_size <= u64::MAX,
        ResizeUnit::AbsoluteSectors => op.new.start <= op.new.end,
        ResizeUnit::RelativeMebibyte | ResizeUnit::RelativeMegabyte => i64::MIN <= op.size_change()
            * op.sector_size <= i64::MAX,
        ResizeUnit::RelativeSectors => i64::MIN <= op.size_change() <= i64::MAX,
    }
}

/// The size argument of a resize tool: the number in `unit`, followed by
/// `M` for the byte-based units.
pub open spec fn size_text(unit: ResizeUnit, op: ResizeOperation) -> Seq<char> {
    match unit {
        ResizeUnit::AbsoluteMebibyte => decimal(
            (op.new.len() * op.sector_size / MEBIBYTE as int) as nat,
        ).push('M'),
        ResizeUnit::AbsoluteMegabyte => decimal(
            (op.new.len() * op.sector_size / MEGABYTE as int) as nat,
        ).push('M'),
        ResizeUnit::AbsoluteSectors => decimal(op.new.len() as nat),
        ResizeUnit::RelativeMebibyte => signed_decimal(
            div_toward_zero(op.size_change() * op.sector_size, MEBIBYTE as int),
        ).push('M'),
        ResizeUnit::RelativeMegabyte => signed_decimal(
            div_toward_zero(op.size_change() * op.sector_size, MEGABYTE as int),
        ).push('M'),
        ResizeUnit::RelativeSectors => signed_decimal(op.size_change()),
    }
}

/// Relies on String::push: appends one character to the string.
#[verifier::external_body]
fn push_char(s: &mut String, c: char)
    ensures
        final(s)@ == old(s)@.push(c),
{
    s.push(c)
}

fn digit_char(d: u64) -> (r: char)
    requires
        d < 10,
    ensures
        r == digit(d as nat),
{
    if d == 0 { '0' }
    else if d == 1 { '1' }
    else if d == 2 { '2' }
    else if d == 3 { '3' }
    else if d == 4 { '4' }
    else if d == 5 { '5' }
    else if d == 6 { '6' }
    else if d == 7 { '7' }
    else if d == 8 { '8' }
    else { '9' }
}

/// Appends the decimal text of `n`.
fn push_decimal(s: &mut String, n: u64)
    ensures
        final(s)@ == old(s)@ + decimal(n as nat),
    decreases n,
{
    if n >= 10 {
        push_decimal(s, n / 10);
    }
    push_char(s, digit_char(n % 10));
    proof {
        if n < 10 {
            assert(n % 10 == n);
        }
        assert(final(s)@ =~= old(s)@ + decimal(n as nat));
    }
}

/// Appends the decimal text of `i`, with a minus sign when negative.
fn push_signed_decimal(s: &mut String, i: i64)
    ensures
        final(s)@ == old(s)@ + signed_decimal(i as int),
{
    if i < 0 {
        push_char(s, '-');
        push_decimal(s, (-(i as i128)) as u64);
        proof {
            assert(final(s)@ =~= old(s)@ + signed_decimal(i as int));
        }
    } else {
        push_decimal(s, i as u64);
    }
}

/// The size argument for a resize tool that takes `unit`.
pub fn size_argument(unit: ResizeUnit, op: &ResizeOperation) -> (r: String)
    requires
        size_fits(unit, *op),
    ensures
        r@ == size_text(unit, *op),
{
    let mut s = String::new();
    match unit {
        ResizeUnit::AbsoluteMebibyte => {
            push_decimal(&mut s, op.as_absolute_mebibyte());
            push_char(&mut s, 'M');
        },
        ResizeUnit::AbsoluteMegabyte => {
            push_decimal(&mut s, op.as_absolute_megabyte());
            push_char(&mut s, 'M');
        },
        ResizeUnit::AbsoluteSectors => {
            push_decimal(&mut s, op.absolute_sectors());
        },
        ResizeUnit::RelativeMebibyte => {
            push_signed_decimal(&mut s, op.as_relative_mebibyte());
            push_char(&mut s, 'M');
        },
        ResizeUnit::RelativeMegabyte => {
            push_signed_decimal(&mut s, op.as_relative_megabyte());
            push_char(&mut s, 'M');
        },
        ResizeUnit::RelativeSectors => {
            push_signed_decimal(&mut s, op.relative_sectors());
        },
    }
    proof {
        assert(s@ =~= size_text(unit, *op));
    }
    s
}

} // verus!
