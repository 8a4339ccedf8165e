//! Snapshots of screens as text files.

use crate::difference;
use crate::error::{Error, Result};
use crate::model::{Rect, ScreenView};
use crate::path;
use crate::screen::{Region, Screen};
use crate::text;
use vstd::prelude::*;
use vstd::utf8::encode_utf8;

verus! {

/// How snapshots are taken and compared.
#[derive(Clone, Copy, Debug, PartialEq, Eq, Structural)]
pub struct SnapshotOptions {
    pub update: bool,
    pub preserve_width: bool,
}

impl Default for SnapshotOptions {
    fn default() -> (options: SnapshotOptions)
        ensures
            options == (SnapshotOptions { update: false, preserve_width: false }),
    {
        SnapshotOptions { update: false, preserve_width: false }
    }
}

/// What became of a snapshot. A file that was written is given by its path.
#[derive(Debug, PartialEq, Eq)]
pub enum SnapshotResult {
    Matched,
    Created(Vec<u8>),
    Updated(Vec<u8>),
}

/// Snapshots in one directory.
#[derive(Debug)]
pub struct SnapshotStore {
    root: Vec<u8>,
    options: SnapshotOptions,
}

/// The directory of some snapshots, and how they are compared.
#[verifier::ext_equal]
pub struct StoreView {
    pub root: Seq<u8>,
    pub options: SnapshotOptions,
}

impl View for SnapshotStore {
    type V = StoreView;

    closed spec fn view(&self) -> StoreView {
        StoreView { root: self.root@, options: self.options }
    }
}

/// Most characters of a file name that are taken from a test's name.
pub const MAX_SLUG_LEN: usize = 96;

pub open spec fn is_slug_char(ch: char) -> bool {
    ||| 'a' <= ch <= 'z'
    ||| 'A' <= ch <= 'Z'
    ||| '0' <= ch <= '9'
    ||| ch == '-'
    ||| ch == '_'
}

/// The name with a dash in place of every other character than a letter, a
/// digit, a dash or an underscore.
pub open spec fn dashed(name: Seq<char>) -> Seq<char> {
    Seq::new(
        name.len(),
        |i: int|
            if is_slug_char(name[i]) {
                name[i]
            } else {
                '-'
            },
    )
}

/// The first characters of a text, at most `count`.
pub open spec fn shortened(text: Seq<char>, count: int) -> Seq<char> {
    if text.len() <= count {
        text
    } else {
        text.take(count)
    }
}

/// The readable part of a snapshot's file name: without dashes at its ends, and
/// of limited length.
pub open spec fn sanitized(name: Seq<char>) -> Seq<char> {
    let inner = text::strip_start(text::strip_end(dashed(name), '-'), '-');
    text::strip_end(shortened(inner, MAX_SLUG_LEN as int), '-')
}

/// The FNV-1a hash of the first `count` bytes.
pub open spec fn hash_of(bytes: Seq<u8>, count: int) -> u64
    decreases count,
{
    if count <= 0 {
        0xcbf29ce484222325
    } else {
        (hash_of(bytes, count - 1) ^ bytes[count - 1] as u64).wrapping_mul(0x100000001b3)
    }
}

/// The hash of a test's name.
pub open spec fn name_hash(name: Seq<char>) -> u64 {
    hash_of(encode_utf8(name), encode_utf8(name).len() as int)
}

/// The readable part, or a word in its place where nothing is left of the name.
pub open spec fn slug(name: Seq<char>) -> Seq<char> {
    if sanitized(name).len() == 0 {
        "snapshot"@
    } else {
        sanitized(name)
    }
}

/// The file name of a snapshot: a readable part and a hash of the whole name.
pub open spec fn file_name_of(name: Seq<char>) -> Seq<char> {
    slug(name) + "--"@ + text::hex(name_hash(name) as nat, 16) + ".snap"@
}

impl StoreView {
    /// Where the snapshot of a name is kept.
    pub open spec fn path_of(self, name: Seq<char>) -> Seq<u8> {
        path::joined(self.root, encode_utf8(file_name_of(name)))
    }
}

/// The readable part of a snapshot's file name.
pub fn sanitize_name(name: &str) -> (result: String)
    ensures
        result@ == sanitized(name@),
{
    let chars = text::chars_of(name);
    let mut value: Vec<char> = Vec::new();
    let mut i: usize = 0;
    while i < chars.len()
        invariant
            i <= chars.len(),
            chars@ == name@,
            value@ == dashed(name@.take(i as int)),
        decreases chars.len() - i,
    {
        let ch = chars[i];
        let plain = ('a' <= ch && ch <= 'z') || ('A' <= ch && ch <= 'Z') || ('0' <= ch && ch
            <= '9') || ch == '-' || ch == '_';
        value.push(
            if plain {
                ch
            } else {
                '-'
            },
        );
        i = i + 1;
        assert(value@ =~= dashed(name@.take(i as int)));
    }
    assert(name@.take(i as int) =~= name@);
    text::strip_end_of(&mut value, '-');
    let ghost ended = value@;
    let mut start: usize = 0;
    assert(ended.skip(0) =~= ended);
    while start < value.len() && value[start] == '-'
        invariant
            start <= value.len(),
            value@ == ended,
            text::strip_start(ended, '-') == text::strip_start(ended.skip(start as int), '-'),
        decreases value.len() - start,
    {
        assert(ended.skip(start as int)[0] == ended[start as int]);
        assert(ended.skip(start as int).drop_first() =~= ended.skip(start + 1));
        start = start + 1;
    }
    let ghost inner = ended.skip(start as int);
    let mut short: Vec<char> = Vec::new();
    let mut k: usize = start;
    while k < value.len() && short.len() < MAX_SLUG_LEN
        invariant
            start <= k <= value.len(),
            value@ == ended,
            inner == ended.skip(start as int),
            short@.len() == k - start,
            short@.len() <= MAX_SLUG_LEN,
            short@ == inner.take(k - start),
        decreases value.len() - k,
    {
        short.push(value[k]);
        k = k + 1;
        assert(short@ =~= inner.take(k - start));
    }
    assert(short@ =~= shortened(inner, MAX_SLUG_LEN as int));
    text::strip_end_of(&mut short, '-');
    text::text_of(&short)
}

/// The FNV-1a hash of some bytes.
pub fn stable_hash(bytes: &[u8]) -> (hash: u64)
    ensures
        hash == hash_of(bytes@, bytes@.len() as int),
{
    let mut hash: u64 = 0xcbf29ce484222325;
    let mut i: usize = 0;
    while i < bytes.len()
        invariant
            i <= bytes.len(),
            hash == hash_of(bytes@, i as int),
        decreases bytes.len() - i,
    {
        hash = (hash ^ bytes[i] as u64).wrapping_mul(0x100000001b3);
        i = i + 1;
    }
    hash
}

/// The file name of a snapshot.
pub fn file_name(name: &str) -> (result: String)
    ensures
        result@ == file_name_of(name@),
{
    let readable = sanitize_name(name);
    let hash: u64 = stable_hash(name.as_bytes());
    let start = if readable.as_str().is_empty() {
        "snapshot".to_owned()
    } else {
        readable
    };
    start.concat("--").concat(text::hex_text(hash, 16).as_str()).concat(".snap")
}

/// What is found where a snapshot is kept.
#[derive(Debug)]
pub enum StoredSnapshot {
    Content(String),
    Missing,
    Failed(String),
}

/// A file that has to be written.
#[derive(Clone, Copy, Debug, PartialEq, Eq, Structural)]
pub enum SnapshotWrite {
    Create,
    Update,
}

/// What has to be done with a snapshot.
#[derive(Debug)]
pub enum SnapshotStep {
    /// Nothing: it matches.
    Matched,
    /// Write the new content.
    Write(SnapshotWrite),
    /// Report the error.
    Failed(Error),
}

/// What opening a temporary file gave.
#[derive(Debug)]
pub enum TemporaryFile {
    Opened,
    Exists,
    Failed(String),
}

/// What has to be done about a temporary file.
#[derive(Debug)]
pub enum TemporaryStep {
    /// Write into it.
    Use,
    /// Try the next name.
    Retry,
    /// Report the error.
    Failed(Error),
}

/// How many names are tried for a temporary file.
pub const TEMPORARY_ATTEMPTS: u32 = 100;

/// The content of a snapshot: the text of the screen and one line feed.
pub open spec fn serialized(screen: ScreenView, preserve_width: bool) -> Seq<char> {
    text::join_lines(screen.active().lines(None, preserve_width)).push('\n')
}

/// The content of a snapshot of a screen.
pub fn serialize_screen(screen: &Screen, preserve_width: bool) -> (content: String)
    requires
        screen@.wf(),
    ensures
        content@ == serialized(screen@, preserve_width),
{
    let mut content = if preserve_width {
        screen.fixed_text()
    } else {
        screen.text()
    };
    content.push('\n');
    content
}

/// The content of a snapshot of a region.
pub open spec fn serialized_region(
    region: Rect,
    screen: ScreenView,
    preserve_width: bool,
) -> Seq<char> {
    text::join_lines(screen.active().lines(Some(region), preserve_width)).push('\n')
}

/// The content of a snapshot of a region.
pub fn serialize_region(region: &Region, screen: &Screen, preserve_width: bool) -> (content: String)
    requires
        screen@.wf(),
    ensures
        content@ == serialized_region(region@, screen@, preserve_width),
{
    let mut content = if preserve_width {
        region.fixed_text(screen)
    } else {
        region.text(screen)
    };
    content.push('\n');
    content
}

/// What has to be done where `stored` is found and `content` is wanted.
pub open spec fn decides(
    store: StoreView,
    name: Seq<char>,
    content: Seq<char>,
    stored: StoredSnapshot,
    step: SnapshotStep,
) -> bool {
    match stored {
        StoredSnapshot::Content(expected) => if expected@ == content {
            step == SnapshotStep::Matched
        } else if store.options.update {
            step == SnapshotStep::Write(SnapshotWrite::Update)
        } else {
            let changes = difference::line_changes(expected@, content);
            step matches SnapshotStep::Failed(Error::SnapshotMismatch { name: which, diff })
                && which@ == name && diff@ == difference::rendered(changes, changes.len() as int)
        },
        StoredSnapshot::Missing => if store.options.update {
            step == SnapshotStep::Write(SnapshotWrite::Create)
        } else {
            step matches SnapshotStep::Failed(Error::SnapshotMissing { name: which, path })
                && which@ == name && path@ == text::lossy(store.path_of(name))
        },
        StoredSnapshot::Failed(reason) => step == SnapshotStep::Failed(Error::Io(reason)),
    }
}

impl SnapshotStore {
    pub fn new(root: Vec<u8>, options: SnapshotOptions) -> (store: SnapshotStore)
        ensures
            store@ == (StoreView { root: root@, options }),
    {
        SnapshotStore { root, options }
    }

    /// Where the snapshot of a name is kept.
    pub fn path_for(&self, name: &str) -> (path: Vec<u8>)
        ensures
            path@ == self@.path_of(name@),
    {
        path::join(&self.root, &file_name(name).as_str().as_bytes_vec())
    }

    /// Compares a screen with its snapshot.
    pub fn assert_screen(
        &self,
        name: &str,
        screen: &Screen,
        stored: StoredSnapshot,
    ) -> (result: (SnapshotStep, String))
        requires
            screen@.wf(),
        ensures
            result.1@ == serialized(screen@, self@.options.preserve_width),
            decides(self@, name@, result.1@, stored, result.0),
    {
        let content = serialize_screen(screen, self.options.preserve_width);
        (self.assert_content(name, content.as_str(), stored), content)
    }

    /// Compares a region of a screen with its snapshot.
    pub fn assert_region(
        &self,
        name: &str,
        region: &Region,
        screen: &Screen,
        stored: StoredSnapshot,
    ) -> (result: (SnapshotStep, String))
        requires
            screen@.wf(),
        ensures
            result.1@ == serialized_region(region@, screen@, self@.options.preserve_width),
            decides(self@, name@, result.1@, stored, result.0),
    {
        let content = serialize_region(region, screen, self.options.preserve_width);
        (self.assert_content(name, content.as_str(), stored), content)
    }

    /// Compares a text with its snapshot.
    pub fn assert_content(
        &self,
        name: &str,
        content: &str,
        stored: StoredSnapshot,
    ) -> (step: SnapshotStep)
        ensures
            decides(self@, name@, content@, stored, step),
    {
        match stored {
            StoredSnapshot::Content(expected) => if text::same_text(expected.as_str(), content) {
                SnapshotStep::Matched
            } else if self.options.update {
                SnapshotStep::Write(SnapshotWrite::Update)
            } else {
                SnapshotStep::Failed(
                    Error::SnapshotMismatch {
                        name: name.to_owned(),
                        diff: difference::unified_diff(expected.as_str(), content),
                    },
                )
            },
            StoredSnapshot::Missing => if self.options.update {
                SnapshotStep::Write(SnapshotWrite::Create)
            } else {
                SnapshotStep::Failed(
                    Error::SnapshotMissing {
                        name: name.to_owned(),
                        path: text::lossy_text(&self.path_for(name)),
                    },
                )
            },
            StoredSnapshot::Failed(reason) => SnapshotStep::Failed(Error::Io(reason)),
        }
    }

    /// A name for a temporary file beside the snapshot. It is hidden, and tells
    /// the process and the attempt apart.
    pub fn temporary_path(&self, name: &str, process: u32, id: u64) -> (path: Vec<u8>)
        ensures
            path@ == path::joined(
                self@.root,
                encode_utf8(
                    "."@ + file_name_of(name@) + ".tmp-"@ + text::decimal(process as nat) + "-"@
                        + text::decimal(id as nat),
                ),
            ),
    {
        let hidden = ".".to_owned().concat(file_name(name).as_str()).concat(".tmp-").concat(
            text::decimal_text(process as u64).as_str(),
        ).concat("-").concat(text::decimal_text(id).as_str());
        path::join(&self.root, &hidden.as_str().as_bytes_vec())
    }

    /// Decides how to go on after the attempt with the given number, counted
    /// from zero, to open a temporary file.
    pub fn temporary_step(
        &self,
        name: &str,
        attempt: u32,
        outcome: TemporaryFile,
    ) -> (step: TemporaryStep)
        requires
            attempt < TEMPORARY_ATTEMPTS,
        ensures
            match outcome {
                TemporaryFile::Opened => step == TemporaryStep::Use,
                TemporaryFile::Exists => if attempt + 1 < TEMPORARY_ATTEMPTS {
                    step == TemporaryStep::Retry
                } else {
                    step matches TemporaryStep::Failed(Error::Io(message)) && message@
                        == "could not allocate a temporary snapshot beside "@ + text::lossy(
                        self@.path_of(name@),
                    )
                },
                TemporaryFile::Failed(reason) => step == TemporaryStep::Failed(Error::Io(reason)),
            },
    {
        match outcome {
            TemporaryFile::Opened => TemporaryStep::Use,
            TemporaryFile::Exists => if attempt + 1 < TEMPORARY_ATTEMPTS {
                TemporaryStep::Retry
            } else {
                TemporaryStep::Failed(
                    Error::Io(
                        "could not allocate a temporary snapshot beside ".to_owned().concat(
                            text::lossy_text(&self.path_for(name)).as_str(),
                        ),
                    ),
                )
            },
            TemporaryFile::Failed(reason) => TemporaryStep::Failed(Error::Io(reason)),
        }
    }

    /// What became of a snapshot that was written, or could not be.
    pub fn written(
        &self,
        name: &str,
        write: SnapshotWrite,
        outcome: std::result::Result<(), String>,
    ) -> (result: Result<SnapshotResult>)
        ensures
            match (result, outcome) {
                (Ok(SnapshotResult::Created(path)), Ok(())) => write == SnapshotWrite::Create
                    && path@ == self@.path_of(name@),
                (Ok(SnapshotResult::Updated(path)), Ok(())) => write == SnapshotWrite::Update
                    && path@ == self@.path_of(name@),
                (Err(error), Err(reason)) => error == Error::Io(reason),
                _ => false,
            },
    {
        match outcome {
            Ok(()) => match write {
                SnapshotWrite::Create => Ok(SnapshotResult::Created(self.path_for(name))),
                SnapshotWrite::Update => Ok(SnapshotResult::Updated(self.path_for(name))),
            },
            Err(reason) => Err(Error::Io(reason)),
        }
    }
}

/// The readable part of a file name holds only letters, digits, dashes and
/// underscores, no dash at its ends, and not too many characters.
pub proof fn lemma_sanitized(name: Seq<char>)
    ensures
        sanitized(name).len() <= MAX_SLUG_LEN,
        forall|i: int| 0 <= i < sanitized(name).len() ==> is_slug_char(#[trigger] sanitized(name)[i]),
        sanitized(name).len() > 0 ==> sanitized(name)[0] != '-' && sanitized(name).last() != '-',
{
    let all = dashed(name);
    let ended = text::strip_end(all, '-');
    let inner = text::strip_start(ended, '-');
    let short = shortened(inner, MAX_SLUG_LEN as int);
    text::lemma_strip_end(all, '-');
    text::lemma_strip_start(ended, '-');
    text::lemma_strip_end(short, '-');
}

/// The length of a snapshot's file name is limited.
pub proof fn lemma_file_name_length(name: Seq<char>)
    ensures
        0 < slug(name).len() <= MAX_SLUG_LEN,
        file_name_of(name).len() == slug(name).len() + 23,
{
    lemma_sanitized(name);
    text::lemma_hex_length(name_hash(name) as nat, 16);
    reveal_strlit("snapshot");
    reveal_strlit("--");
    reveal_strlit(".snap");
}

/// Two names share a file only where their readable parts and their hashes are
/// the same: replacing punctuation never makes two names overwrite each other.
pub proof fn lemma_files_are_told_apart(left: Seq<char>, right: Seq<char>)
    requires
        file_name_of(left) == file_name_of(right),
    ensures
        slug(left) == slug(right),
        name_hash(left) == name_hash(right),
{
    lemma_file_name_length(left);
    lemma_file_name_length(right);
    reveal_strlit("--");
    reveal_strlit(".snap");
    let n = slug(left).len() as int;
    let l = text::hex(name_hash(left) as nat, 16);
    let r = text::hex(name_hash(right) as nat, 16);
    text::lemma_hex_length(name_hash(left) as nat, 16);
    text::lemma_hex_length(name_hash(right) as nat, 16);
    assert(slug(left) =~= file_name_of(left).take(n));
    assert(slug(right) =~= file_name_of(right).take(n));
    assert(l =~= file_name_of(left).subrange(n + 2, n + 18));
    assert(r =~= file_name_of(right).subrange(n + 2, n + 18));
    assert(text::hex_limit(16) == 0x1_0000_0000_0000_0000) by {
        reveal_with_fuel(text::hex_limit, 17);
    }
    text::lemma_hex_is_injective(name_hash(left) as nat, name_hash(right) as nat, 16);
}

/// Two names of the same length that differ in one byte, and in no other, have
/// different hashes.
pub proof fn lemma_one_byte_tells_hashes_apart(left: Seq<u8>, right: Seq<u8>, at: int)
    requires
        left.len() == right.len(),
        0 <= at < left.len(),
        left[at] != right[at],
        forall|i: int| 0 <= i < left.len() && i != at ==> left[i] == right[i],
    ensures
        hash_of(left, left.len() as int) != hash_of(right, right.len() as int),
{
    lemma_hashes_apart(left, right, at, left.len() as int);
}

proof fn lemma_hashes_apart(left: Seq<u8>, right: Seq<u8>, at: int, count: int)
    requires
        left.len() == right.len(),
        0 <= at < left.len(),
        left[at] != right[at],
        forall|i: int| 0 <= i < left.len() && i != at ==> left[i] == right[i],
        0 <= count <= left.len(),
    ensures
        hash_of(left, count) == hash_of(right, count) <==> count <= at,
    decreases count,
{
    if count > 0 {
        lemma_hashes_apart(left, right, at, count - 1);
        if count > at {
            lemma_hash_steps_apart(
                hash_of(left, count - 1),
                left[count - 1],
                hash_of(right, count - 1),
                right[count - 1],
            );
        }
    }
}

/// One step of the hash tells hashes apart where the bytes are the same, and
/// bytes apart where the hashes are the same.
proof fn lemma_hash_steps_apart(left: u64, left_byte: u8, right: u64, right_byte: u8)
    requires
        (left == right) != (left_byte == right_byte),
    ensures
        (left ^ left_byte as u64).wrapping_mul(0x100000001b3) != (right
            ^ right_byte as u64).wrapping_mul(0x100000001b3),
{
    let (x, y) = (left ^ left_byte as u64, right ^ right_byte as u64);
    assert(x != y) by (bit_vector)
        requires
            (left == right) != (left_byte == right_byte),
            x == left ^ left_byte as u64,
            y == right ^ right_byte as u64,
    ;
    if x.wrapping_mul(0x100000001b3) == y.wrapping_mul(0x100000001b3) {
        lemma_hash_step_can_be_undone(x);
        lemma_hash_step_can_be_undone(y);
    }
}

/// The multiplication of the hash has an inverse.
proof fn lemma_hash_step_can_be_undone(x: u64)
    ensures
        (x.wrapping_mul(0x100000001b3) * 0xce965057aff6957b) % 0x1_0000_0000_0000_0000 == x,
{
    let modulus: int = 0x1_0000_0000_0000_0000;
    let factor: int = 0x100000001b3;
    let inverse: int = 0xce965057aff6957b;
    let product = x * factor;
    vstd::arithmetic::div_mod::lemma_mul_mod_noop_left(product, inverse, modulus);
    assert(product * inverse == modulus * (x * 887285111055) + x) by (nonlinear_arith)
        requires
            product == x * 0x100000001b3,
            inverse == 0xce965057aff6957b,
            modulus == 0x1_0000_0000_0000_0000,
    ;
    vstd::arithmetic::div_mod::lemma_mod_multiples_vanish(x * 887285111055, x as int, modulus);
}

/// Rows of text, each with a line feed behind it.
pub open spec fn ended_lines(lines: Seq<Seq<char>>) -> Seq<char>
    decreases lines.len(),
{
    if lines.len() == 0 {
        seq![]
    } else {
        ended_lines(lines.drop_last()) + lines.last().push('\n')
    }
}

/// A snapshot holds the rows of the screen, each with one line feed behind it,
/// and nothing else.
pub proof fn lemma_snapshot_rows(screen: ScreenView, preserve_width: bool)
    requires
        screen.wf(),
    ensures
        serialized(screen, preserve_width) == ended_lines(
            screen.active().lines(None, preserve_width),
        ),
        serialized(screen, preserve_width).last() == '\n',
{
    lemma_joined_rows(screen.active().lines(None, preserve_width));
}

proof fn lemma_joined_rows(lines: Seq<Seq<char>>)
    requires
        lines.len() > 0,
    ensures
        text::join_lines(lines).push('\n') == ended_lines(lines),
    decreases lines.len(),
{
    if lines.len() == 1 {
        reveal_with_fuel(ended_lines, 2);
        assert(text::join_lines(lines).push('\n') =~= ended_lines(lines));
    } else {
        lemma_joined_rows(lines.drop_last());
        assert(text::join_lines(lines).push('\n') =~= ended_lines(lines));
    }
}

/// A snapshot that was just written matches.
pub proof fn lemma_written_snapshot_matches(
    store: StoreView,
    name: Seq<char>,
    content: Seq<char>,
    stored: StoredSnapshot,
    step: SnapshotStep,
)
    requires
        stored matches StoredSnapshot::Content(written) && written@ == content,
        decides(store, name, content, stored, step),
    ensures
        step == SnapshotStep::Matched,
{
}

/// Nothing is written unless updating was asked for.
pub proof fn lemma_only_updating_writes(
    store: StoreView,
    name: Seq<char>,
    content: Seq<char>,
    stored: StoredSnapshot,
    step: SnapshotStep,
)
    requires
        decides(store, name, content, stored, step),
        step is Write,
    ensures
        store.options.update,
{
}

} // verus!
