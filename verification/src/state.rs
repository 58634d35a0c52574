//! Plugin state: the in-memory streams it travels through, and the steps of
//! saving and loading it.

use vstd::prelude::*;

verus! {

/// A byte buffer that plugins write their state to and read it back from. The
/// reader keeps its place; writing always appends.
pub struct StreamBuf {
    data: Vec<u8>,
    pos: usize,
}

/// What a stream call reports for a number of bytes.
pub open spec fn reported(n: int) -> i64 {
    if n <= i64::MAX {
        n as i64
    } else {
        i64::MAX
    }
}

fn report(n: usize) -> (r: i64)
    ensures
        r == reported(n as int),
{
    if n as u64 <= i64::MAX as u64 {
        n as i64
    } else {
        i64::MAX
    }
}

impl View for StreamBuf {
    type V = Seq<u8>;

    /// Everything that was written.
    closed spec fn view(&self) -> Seq<u8> {
        self.data@
    }
}

impl StreamBuf {
    /// How many bytes were read.
    pub closed spec fn pos(&self) -> nat {
        self.pos as nat
    }

    /// Reading never runs ahead of writing.
    pub open spec fn wf(&self) -> bool {
        self.pos() <= self@.len()
    }

    /// What is left to read.
    pub open spec fn unread(&self) -> Seq<u8> {
        self@.skip(self.pos() as int)
    }

    pub fn new() -> (buf: Self)
        ensures
            buf.wf(),
            buf@ == Seq::<u8>::empty(),
            buf.pos() == 0,
    {
        StreamBuf { data: Vec::new(), pos: 0 }
    }

    /// A buffer that holds `data`, with everything left to read.
    pub fn with_data(data: Vec<u8>) -> (buf: Self)
        ensures
            buf.wf(),
            buf@ == data@,
            buf.pos() == 0,
    {
        StreamBuf { data, pos: 0 }
    }

    pub fn bytes(&self) -> (bytes: &[u8])
        ensures
            bytes@ == self@,
    {
        self.data.as_slice()
    }
}

impl Default for StreamBuf {
    fn default() -> (buf: Self)
        ensures
            buf.wf(),
            buf@ == Seq::<u8>::empty(),
            buf.pos() == 0,
    {
        StreamBuf::new()
    }
}

/// The plugin writes: all bytes are taken. -1 where there is no buffer.
pub fn stream_write(stream: &mut StreamBuf, buffer: Option<&[u8]>) -> (n: i64)
    requires
        old(stream).wf(),
    ensures
        final(stream).wf(),
        final(stream).pos() == old(stream).pos(),
        match buffer {
            None => n == -1 && final(stream)@ == old(stream)@,
            Some(bytes) => n == reported(bytes@.len() as int) && final(stream)@ == old(stream)@
                + bytes@,
        },
{
    match buffer {
        None => -1,
        Some(bytes) => {
            stream.data.extend_from_slice(bytes);
            assert(stream.data@ =~= old(stream).data@ + bytes@);
            report(bytes.len())
        },
    }
}

/// How many of `wanted` bytes a stream hands out.
pub open spec fn readable(unread: Seq<u8>, wanted: nat) -> nat {
    if wanted <= unread.len() {
        wanted
    } else {
        unread.len()
    }
}

/// The plugin reads into its buffer: as much as fits and is left. The rest of
/// the buffer stays as it was. -1 where there is no buffer.
pub fn stream_read(stream: &mut StreamBuf, buffer: Option<&mut [u8]>) -> (n: i64)
    requires
        old(stream).wf(),
    ensures
        final(stream).wf(),
        final(stream)@ == old(stream)@,
        match buffer {
            None => n == -1 && final(stream).pos() == old(stream).pos(),
            Some(bytes) => {
                let count = readable(old(stream).unread(), (*bytes)@.len());
                &&& n == reported(count as int)
                &&& final(stream).pos() == old(stream).pos() + count
                &&& final(bytes)@ == old(stream).unread().take(count as int) + (*bytes)@.skip(
                    count as int,
                )
            },
        },
{
    match buffer {
        None => -1,
        Some(bytes) => {
            let avail: usize = stream.data.len() - stream.pos;
            let n: usize = if bytes.len() < avail {
                bytes.len()
            } else {
                avail
            };
            let ghost before = bytes@;
            let mut i: usize = 0;
            while i < n
                invariant
                    i <= n <= bytes@.len(),
                    bytes@.len() == before.len(),
                    stream.data@ == old(stream).data@,
                    stream.pos == old(stream).pos,
                    stream.pos + n <= stream.data.len(),
                    forall|k: int| 0 <= k < i ==> bytes@[k] == stream.data@[stream.pos + k],
                    forall|k: int| i <= k < before.len() ==> bytes@[k] == before[k],
                decreases n - i,
            {
                bytes[i] = stream.data[stream.pos + i];
                i = i + 1;
            }
            stream.pos = stream.pos + n;
            assert(bytes@ =~= old(stream).unread().take(n as int) + before.skip(n as int));
            report(n)
        },
    }
}

/// Why saving or loading a state failed.
pub enum StateError {
    NoExtension,
    NoSave,
    SaveRefused,
    /// The file could not be written, with the reason.
    Write(String),
    NoLoad,
    /// The file could not be read, with the reason.
    Read(String),
    LoadRefused,
}

/// The message shown for a failure with the file at `path`.
pub open spec fn error_text(error: StateError, path: Seq<char>) -> Seq<char> {
    match error {
        StateError::NoExtension => "plugin has no state extension"@,
        StateError::NoSave => "state.save is null"@,
        StateError::SaveRefused => "state.save returned false"@,
        StateError::Write(reason) => "write "@ + path + ": "@ + reason@,
        StateError::NoLoad => "state.load is null"@,
        StateError::Read(reason) => "read "@ + path + ": "@ + reason@,
        StateError::LoadRefused => "plugin rejected state blob"@,
    }
}

impl StateError {
    pub fn message(&self, path: &str) -> (text: String)
        ensures
            text@ == error_text(*self, path@),
    {
        match self {
            StateError::NoExtension => "plugin has no state extension".to_owned(),
            StateError::NoSave => "state.save is null".to_owned(),
            StateError::SaveRefused => "state.save returned false".to_owned(),
            StateError::Write(reason) => file_message("write ", path, reason.as_str()),
            StateError::NoLoad => "state.load is null".to_owned(),
            StateError::Read(reason) => file_message("read ", path, reason.as_str()),
            StateError::LoadRefused => "plugin rejected state blob".to_owned(),
        }
    }
}

fn file_message(verb: &str, path: &str, reason: &str) -> (text: String)
    ensures
        text@ == verb@ + path@ + ": "@ + reason@,
{
    let mut text = verb.to_owned();
    text.append(path);
    text.append(": ");
    text.append(reason);
    text
}

/// Ask the plugin to serialize its state: the stream it is to write to.
/// `state_save` says what it offers: no state extension, or one with or without
/// `save`.
pub fn save(state_save: Option<bool>) -> (stream: Result<StreamBuf, StateError>)
    ensures
        state_save is None ==> stream == Err::<StreamBuf, StateError>(StateError::NoExtension),
        state_save == Some(false) ==> stream == Err::<StreamBuf, StateError>(StateError::NoSave),
        state_save == Some(true) ==> stream is Ok && stream->Ok_0.wf() && stream->Ok_0@ == Seq::<
            u8,
        >::empty(),
{
    match state_save {
        None => Err(StateError::NoExtension),
        Some(false) => Err(StateError::NoSave),
        Some(true) => Ok(StreamBuf::new()),
    }
}

/// The plugin wrote its state and answered: the bytes for the file.
pub fn saved(stream: StreamBuf, answer: bool) -> (bytes: Result<Vec<u8>, StateError>)
    ensures
        !answer ==> bytes == Err::<Vec<u8>, StateError>(StateError::SaveRefused),
        answer ==> bytes is Ok && bytes->Ok_0@ == stream@,
{
    if answer {
        Ok(stream.data)
    } else {
        Err(StateError::SaveRefused)
    }
}

/// The file was written, or not.
pub fn written(file: Result<(), String>) -> (r: Result<(), StateError>)
    ensures
        file is Ok ==> r is Ok,
        file is Err ==> r == Err::<(), StateError>(StateError::Write(file->Err_0)),
{
    match file {
        Ok(()) => Ok(()),
        Err(reason) => Err(StateError::Write(reason)),
    }
}

/// Whether a state can be handed to the plugin at all; asked before the file is
/// read. `state_load` says what the plugin offers: no state extension, or one
/// with or without `load`.
pub fn load(state_load: Option<bool>) -> (r: Result<(), StateError>)
    ensures
        state_load is None ==> r == Err::<(), StateError>(StateError::NoExtension),
        state_load == Some(false) ==> r == Err::<(), StateError>(StateError::NoLoad),
        state_load == Some(true) ==> r is Ok,
{
    match state_load {
        None => Err(StateError::NoExtension),
        Some(false) => Err(StateError::NoLoad),
        Some(true) => Ok(()),
    }
}

/// The file was read, or not: the stream that the plugin is to read from.
pub fn load_from(file: Result<Vec<u8>, String>) -> (stream: Result<StreamBuf, StateError>)
    ensures
        match file {
            Err(reason) => stream == Err::<StreamBuf, StateError>(StateError::Read(reason)),
            Ok(bytes) => stream is Ok && stream->Ok_0.wf() && stream->Ok_0@ == bytes@
                && stream->Ok_0.pos() == 0,
        },
{
    match file {
        Err(reason) => Err(StateError::Read(reason)),
        Ok(bytes) => Ok(StreamBuf::with_data(bytes)),
    }
}

/// The plugin read its state and answered.
pub fn loaded(answer: bool) -> (r: Result<(), StateError>)
    ensures
        answer ==> r is Ok,
        !answer ==> r == Err::<(), StateError>(StateError::LoadRefused),
{
    if answer {
        Ok(())
    } else {
        Err(StateError::LoadRefused)
    }
}

/// What a stream holds after the plugin wrote `chunks` one after the other.
pub open spec fn after_writes(held: Seq<u8>, chunks: Seq<Seq<u8>>) -> Seq<u8>
    decreases chunks.len(),
{
    if chunks.len() == 0 {
        held
    } else {
        after_writes(held, chunks.drop_last()) + chunks.last()
    }
}

/// What the plugin gets when it reads with buffers of these sizes, all reads
/// joined.
pub open spec fn all_read(unread: Seq<u8>, sizes: Seq<nat>) -> Seq<u8>
    decreases sizes.len(),
{
    if sizes.len() == 0 {
        Seq::empty()
    } else {
        let n = readable(unread, sizes[0]) as int;
        unread.take(n) + all_read(unread.skip(n), sizes.skip(1))
    }
}

/// How many bytes fit into buffers of these sizes together.
pub open spec fn room(sizes: Seq<nat>) -> nat
    decreases sizes.len(),
{
    if sizes.len() == 0 {
        0
    } else {
        sizes[0] + room(sizes.skip(1))
    }
}

/// Law: a plugin reads back what it wrote, however it cut the bytes into
/// writes and whatever buffers it reads with: the bytes come in order, nothing
/// is skipped, repeated or made up, and all of them come if the buffers have
/// room.
pub proof fn what_was_written_is_read_back(chunks: Seq<Seq<u8>>, sizes: Seq<nat>)
    ensures
        ({
            let state = after_writes(Seq::empty(), chunks);
            let got = all_read(state, sizes);
            &&& state == chunks.flatten()
            &&& got == state.take(readable(state, room(sizes)) as int)
            &&& room(sizes) >= state.len() ==> got == state
        }),
{
    let state = after_writes(Seq::empty(), chunks);
    writes_join(chunks);
    reads_join(state, sizes);
    assert(state.take(state.len() as int) =~= state);
}

proof fn writes_join(chunks: Seq<Seq<u8>>)
    ensures
        after_writes(Seq::empty(), chunks) == chunks.flatten(),
    decreases chunks.len(),
{
    chunks.lemma_flatten_and_flatten_alt_are_equivalent();
    if chunks.len() > 0 {
        writes_join(chunks.drop_last());
        chunks.drop_last().lemma_flatten_and_flatten_alt_are_equivalent();
    }
}

proof fn reads_join(unread: Seq<u8>, sizes: Seq<nat>)
    ensures
        all_read(unread, sizes) == unread.take(readable(unread, room(sizes)) as int),
    decreases sizes.len(),
{
    if sizes.len() > 0 {
        let n = readable(unread, sizes[0]) as int;
        reads_join(unread.skip(n), sizes.skip(1));
        assert(all_read(unread, sizes) =~= unread.take(readable(unread, room(sizes)) as int));
    }
}

/// Law: a read gets all that fits and is left, and what is reported of a number of
/// bytes is that number while it can be told.
pub proof fn reads_get_all_that_fits(unread: Seq<u8>, wanted: nat, n: int)
    requires
        0 <= n,
    ensures
        readable(unread, wanted) <= wanted,
        readable(unread, wanted) <= unread.len(),
        readable(unread, wanted) == wanted || readable(unread, wanted) == unread.len(),
        n <= i64::MAX ==> reported(n) == n,
        reported(n) >= 0,
        reported(n) == 0 <==> n == 0,
{
}

/// Law: what is left to read are the bytes behind those that were read: bytes
/// that were read and bytes that are left are all that was written.
pub proof fn nothing_is_read_twice(stream: StreamBuf)
    requires
        stream.wf(),
    ensures
        stream@.take(stream.pos() as int) + stream.unread() == stream@,
        stream.unread().len() + stream.pos() == stream@.len(),
{
    assert(stream@.take(stream.pos() as int) + stream.unread() =~= stream@);
}

/// Law: every failure is told in its own words; those of a file name the file and
/// the reason.
pub proof fn state_errors_are_told(path: Seq<char>, reason: String)
    ensures
        error_text(StateError::NoExtension, path) == "plugin has no state extension"@,
        error_text(StateError::NoSave, path) == "state.save is null"@,
        error_text(StateError::SaveRefused, path) == "state.save returned false"@,
        error_text(StateError::NoLoad, path) == "state.load is null"@,
        error_text(StateError::LoadRefused, path) == "plugin rejected state blob"@,
        error_text(StateError::Write(reason), path) == "write "@ + path + ": "@ + reason@,
        error_text(StateError::Read(reason), path) == "read "@ + path + ": "@ + reason@,
{
}

} // verus!
