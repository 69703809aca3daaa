use vstd::prelude::*;
use std::io::Write;

verus! {

/// What gzip-compressing a byte string yields, header and stream, as
/// flate2's encoder computes it at the default level.
pub uninterp spec fn gzip_of(bytes: Seq<u8>) -> Seq<u8>;

/// Relies on flate2::write::GzEncoder at the default compression level: the
/// output depends on the input bytes alone (the header carries no time
/// stamp), and the call succeeds, since writing into a vector reports no
/// error of its own.
#[verifier::external_body]
pub(crate) fn gzip_bytes(data: &[u8]) -> (r: Result<Vec<u8>, String>)
    ensures
        r is Ok,
        r matches Ok(c) ==> c@ == gzip_of(data@),
{
    let mut enc = flate2::write::GzEncoder::new(Vec::new(), flate2::Compression::default());
    match enc.write_all(data) {
        Ok(()) => enc.finish().map_err(|e| e.to_string()),
        Err(e) => Err(e.to_string()),
    }
}

/// Failures of the file sink.
#[derive(Debug)]
pub enum FileHandlerError {
    IoError(String),
    CompressionError(String),
}

/// Saturating byte accounting: the counter sticks at the top instead of
/// wrapping.
pub open spec fn sat_add_u64(a: u64, b: nat) -> u64 {
    if a + b <= u64::MAX {
        (a + b) as u64
    } else {
        u64::MAX
    }
}

/// One append of `line_bytes` payload bytes plus a newline against a
/// rotation threshold: whether the sink rotates first, and the byte counter
/// afterwards, which then reflects only post-rotation writes.
pub open spec fn file_step(max_size: u64, size: u64, line_bytes: nat) -> (bool, u64) {
    let rotated = size >= max_size;
    let base: u64 = if rotated {
        0
    } else {
        size
    };
    (rotated, sat_add_u64(base, line_bytes + 1))
}

/// The byte counter after a sequence of appends.
pub open spec fn file_size_after(max_size: u64, size: u64, lines: Seq<nat>) -> u64
    decreases lines.len(),
{
    if lines.len() == 0 {
        size
    } else {
        file_size_after(max_size, file_step(max_size, size, lines[0]).1, lines.drop_first())
    }
}

/// How many rotated artifacts a sequence of appends produces.
pub open spec fn rotations_of(max_size: u64, size: u64, lines: Seq<nat>) -> nat
    decreases lines.len(),
{
    if lines.len() == 0 {
        0
    } else {
        (if size >= max_size {
            1nat
        } else {
            0nat
        }) + rotations_of(max_size, file_step(max_size, size, lines[0]).1, lines.drop_first())
    }
}

/// The name for a rotated or compressed artifact.
pub open spec fn suffixed_name(base: Seq<char>, suffix: Seq<char>) -> Seq<char> {
    base + "."@ + suffix
}

/// The plan for one rotation: the timestamp-suffixed name the active file is
/// renamed to, and the name its compressed form is written under.
pub struct RotationPlan {
    pub rotated_name: String,
    pub compressed_name: String,
}

/// Byte accounting and rotation policy for an append-only log file. The
/// reads, writes and renames themselves happen outside; this state decides
/// when to rotate, names the artifacts, compresses the contents, and tracks
/// the bytes written since the last rotation.
pub struct FileHandler {
    file_path: String,
    max_size: u64,
    current_size: u64,
}

impl FileHandler {
    /// The path of the active file.
    pub closed spec fn path_spec(self) -> Seq<char> {
        self.file_path@
    }

    /// The rotation threshold in bytes.
    pub closed spec fn max_size_spec(self) -> u64 {
        self.max_size
    }

    /// The bytes written since the last rotation.
    pub closed spec fn current_size_spec(self) -> u64 {
        self.current_size
    }

    /// Builds a file sink with a zeroed byte counter.
    pub fn new(file_path: String, max_size: u64) -> (r: FileHandler)
        ensures
            r.path_spec() == file_path@,
            r.max_size_spec() == max_size,
            r.current_size_spec() == 0,
    {
        FileHandler { file_path, max_size, current_size: 0 }
    }

    /// The path of the active file.
    pub fn path(&self) -> (r: &String)
        ensures
            r@ == self.path_spec(),
    {
        &self.file_path
    }

    /// Whether the next append must rotate first.
    pub fn needs_rotation(&self) -> (r: bool)
        ensures
            r == (self.current_size_spec() >= self.max_size_spec()),
    {
        self.current_size >= self.max_size
    }

    /// The artifact names for a rotation stamped with `timestamp`.
    pub fn rotation_plan(&self, timestamp: &str) -> (r: RotationPlan)
        ensures
            r.rotated_name@ == suffixed_name(self.path_spec(), timestamp@),
            r.compressed_name@ == suffixed_name(self.path_spec(), timestamp@) + ".gz"@,
    {
        let mut rotated = self.file_path.clone();
        rotated.append(".");
        rotated.append(timestamp);
        let mut compressed = rotated.clone();
        compressed.append(".gz");
        RotationPlan { rotated_name: rotated, compressed_name: compressed }
    }

    /// Compresses the contents of a rotated file; never fails.
    pub fn compress(&self, data: &[u8]) -> (r: Result<Vec<u8>, FileHandlerError>)
        ensures
            r is Ok,
            r matches Ok(c) ==> c@ == gzip_of(data@),
            r matches Err(e) ==> e is CompressionError,
    {
        match gzip_bytes(data) {
            Ok(c) => Ok(c),
            Err(m) => Err(FileHandlerError::CompressionError(m)),
        }
    }

    /// Records a completed rotation: the byte counter starts over.
    pub fn note_rotated(&mut self)
        ensures
            final(self).path_spec() == old(self).path_spec(),
            final(self).max_size_spec() == old(self).max_size_spec(),
            final(self).current_size_spec() == 0,
    {
        self.current_size = 0;
    }

    /// Records an appended line of `bytes` payload bytes plus its newline.
    pub fn note_appended(&mut self, bytes: usize)
        ensures
            final(self).path_spec() == old(self).path_spec(),
            final(self).max_size_spec() == old(self).max_size_spec(),
            final(self).current_size_spec() == sat_add_u64(
                old(self).current_size_spec(),
                bytes as nat + 1,
            ),
    {
        let b = bytes as u64;
        if b < u64::MAX && self.current_size <= u64::MAX - b - 1 {
            self.current_size = self.current_size + b + 1;
        } else {
            self.current_size = u64::MAX;
        }
    }
}

/// Emitting splits into runs separated by rotations: the artifacts of a
/// combined run of appends are those of its first part followed by those of
/// its second, started from the byte counter the first part left behind.
pub proof fn lemma_rotations_compose(max_size: u64, size: u64, a: Seq<nat>, b: Seq<nat>)
    ensures
        rotations_of(max_size, size, a + b) == rotations_of(max_size, size, a) + rotations_of(
            max_size,
            file_size_after(max_size, size, a),
            b,
        ),
        file_size_after(max_size, size, a + b) == file_size_after(
            max_size,
            file_size_after(max_size, size, a),
            b,
        ),
    decreases a.len(),
{
    if a.len() == 0 {
        assert(a + b =~= b);
    } else {
        let size2 = file_step(max_size, size, a[0]).1;
        lemma_rotations_compose(max_size, size2, a.drop_first(), b);
        assert((a + b).drop_first() =~= a.drop_first() + b);
        assert((a + b)[0] == a[0]);
    }
}

/// One threshold crossing yields exactly one artifact: an append that finds
/// the counter at or above the threshold rotates once and leaves only its
/// own bytes behind; below the threshold nothing rotates and the bytes
/// accumulate.
pub proof fn lemma_rotation_step(max_size: u64, size: u64, line_bytes: nat)
    ensures
        file_step(max_size, size, line_bytes).0 == (size >= max_size),
        size >= max_size ==> file_step(max_size, size, line_bytes).1 == sat_add_u64(
            0,
            line_bytes + 1,
        ),
        size < max_size ==> file_step(max_size, size, line_bytes).1 == sat_add_u64(
            size,
            line_bytes + 1,
        ),
        rotations_of(max_size, size, seq![line_bytes]) == (if size >= max_size {
            1nat
        } else {
            0nat
        }),
{
    assert(seq![line_bytes].drop_first() =~= Seq::<nat>::empty());
    assert(rotations_of(
        max_size,
        file_step(max_size, size, line_bytes).1,
        seq![line_bytes].drop_first(),
    ) == 0);
}

} // verus!
