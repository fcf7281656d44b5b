//! A byte buffer of fixed capacity.

use vstd::prelude::*;

verus! {

/// The number of bytes that a buffer can hold.
pub const BUFFER_SIZE: usize = 4096;

/// Bytes collected one after another, up to `BUFFER_SIZE` of them.
pub struct Buffer {
    pos: usize,
    buffer: [u8; 4096],
}

impl View for Buffer {
    type V = Seq<u8>;

    closed spec fn view(&self) -> Seq<u8> {
        self.buffer@.take(self.pos as int)
    }
}

/// The storage of a buffer that was never written to: `BUFFER_SIZE` zero
/// bytes.
pub open spec fn blank() -> Seq<u8> {
    Seq::new(BUFFER_SIZE as nat, |i: int| 0u8)
}

impl Buffer {
    /// No more bytes are held than the buffer has room for.
    #[verifier::type_invariant]
    pub closed spec fn inv(self) -> bool {
        self.pos <= BUFFER_SIZE
    }

    /// All the bytes of the buffer's storage: those that it holds, and
    /// behind them those that it does not.
    pub closed spec fn storage(&self) -> Seq<u8> {
        self.buffer@
    }

    /// A buffer that holds nothing, with storage for `BUFFER_SIZE` bytes,
    /// all of them zero.
    pub fn new() -> (buffer: Buffer)
        ensures
            buffer@ == Seq::<u8>::empty(),
            buffer.storage() == blank(),
    {
        let buffer = Buffer { pos: 0, buffer: [0; 4096] };
        assert(buffer.storage() =~= blank());
        buffer
    }

    /// The number of bytes held. The bytes held are the first so many of
    /// the storage.
    pub fn len(&self) -> (n: usize)
        ensures
            n == self@.len(),
            n <= BUFFER_SIZE,
            self.storage().len() == BUFFER_SIZE,
            self@ == self.storage().take(n as int),
    {
        proof {
            use_type_invariant(self);
        }
        self.pos
    }

    /// The bytes held.
    pub fn as_slice(&self) -> (bytes: &[u8])
        ensures
            bytes@ == self@,
    {
        proof {
            use_type_invariant(self);
        }
        &self.buffer[0..self.pos]
    }

    /// Forgets what the buffer holds. The storage keeps its bytes.
    pub fn clear(&mut self)
        ensures
            final(self)@ == Seq::<u8>::empty(),
            final(self).storage() == old(self).storage(),
    {
        self.pos = 0;
    }

    /// Takes nothing in: whatever `data` is, the buffer stays as it is, and
    /// what is handed out is an empty slice.
    pub fn write(&mut self, data: &[u8]) -> (held: Result<&[u8], ()>)
        ensures
            held is Ok,
            held matches Ok(bytes) ==> bytes@.len() == 0,
            final(self)@ == old(self)@,
            final(self).storage() == old(self).storage(),
    {
        Ok(&self.buffer[0..0])
    }

    /// Appends `data` if all of it fits, and hands out what the buffer then
    /// holds. Where it does not fit, the buffer is left as it was. The
    /// storage behind the bytes held keeps its bytes.
    pub fn append(&mut self, data: &[u8]) -> (held: Result<&[u8], ()>)
        ensures
            held is Ok <==> old(self)@.len() + data@.len() <= BUFFER_SIZE,
            held is Ok ==> final(self)@ == old(self)@ + data@,
            held is Ok ==> final(self).storage() == final(self)@ + old(self).storage().skip(
                final(self)@.len() as int,
            ),
            held is Err ==> final(self)@ == old(self)@,
            held is Err ==> final(self).storage() == old(self).storage(),
            held matches Ok(bytes) ==> bytes@ == final(self)@,
    {
        proof {
            use_type_invariant(&*self);
        }
        if data.len() > BUFFER_SIZE - self.pos {
            return Err(());
        }
        assert(self.storage() =~= self@ + old(self).storage().skip(self@.len() as int));
        let mut i: usize = 0;
        while i < data.len()
            invariant
                i <= data@.len(),
                self.pos + (data@.len() - i) <= BUFFER_SIZE,
                self.pos == old(self).pos + i,
                self@ == old(self)@ + data@.take(i as int),
                self.storage() == self@ + old(self).storage().skip(self@.len() as int),
            decreases data@.len() - i,
        {
            let ghost before = self@;
            let ghost stored = self.storage();
            self.buffer[self.pos] = data[i];
            self.pos += 1;
            i += 1;
            assert(self@ =~= before.push(data@[i - 1]));
            assert(data@.take(i as int) =~= data@.take(i - 1).push(data@[i - 1]));
            assert(self.storage() =~= stored.update(self.pos - 1, data@[i - 1]));
            assert(self.storage() =~= self@ + old(self).storage().skip(self@.len() as int));
        }
        assert(data@.take(data@.len() as int) =~= data@);
        Ok(&self.buffer[0..self.pos])
    }
}

} // verus!
