//! Binary Object Store (BOS) descriptor decoding.
//!
//! A BOS buffer carries a 5-byte header followed by back-to-back device
//! capability records.  The only record this library consumes is the
//! Container ID capability, whose 16-byte payload identifies the physical
//! hub across re-enumeration.

use vstd::prelude::*;

use crate::error::Error;

verus! {

/// Container Id
#[derive(Clone, Copy, Debug, PartialEq, Eq)]
pub struct ContainerId(pub [u8; 16]);

/// Whether the first five bytes of a BOS buffer form a valid header whose
/// total-length field matches the actual buffer length.
pub open spec fn bos_header_ok(data: Seq<u8>) -> bool {
    &&& data.len() >= 5
    &&& data[0] == 5
    &&& data[1] == 0x0f
    &&& data[2] + 256 * data[3] == data.len()
}

/// One step per capability record: starting at `off` with `remaining`
/// records still announced, the scan yields the first Container ID payload
/// (`Ok(Some(..))`), exhaustion without one (`Ok(None)`), or a decode
/// failure (`Err`) when a record is malformed or runs past the buffer.
///
/// A record is a Container ID capability exactly when its length byte is 20
/// and its capability type is 0x04; its payload is the 16 bytes after the
/// 3-byte record header.  Any record whose descriptor type is not 0x10
/// (device capability) is a hard failure, not skipped.
pub open spec fn capability_scan(data: Seq<u8>, off: int, remaining: nat) -> Result<
    Option<Seq<u8>>,
    (),
>
    decreases remaining,
{
    if remaining == 0 {
        Ok(None)
    } else if data.len() - off < 3 {
        Err(())
    } else if data[off + 1] != 0x10 {
        Err(())
    } else if data[off] == 20 && data[off + 2] == 0x04 {
        if data.len() - off >= 20 {
            Ok(Some(data.subrange(off + 3, off + 19)))
        } else {
            Err(())
        }
    } else if data.len() - off < data[off] {
        Err(())
    } else {
        capability_scan(data, off + data[off], (remaining - 1) as nat)
    }
}

/// The Container ID a raw BOS reply yields: the payload of the first
/// Container ID capability when the header is valid and the record walk
/// reaches one, and nothing on any failure — a bad header, a malformed
/// record, or an exhausted capability list alike.
pub open spec fn bos_reply_container_id(reply: Seq<u8>) -> Option<Seq<u8>> {
    if bos_header_ok(reply) {
        match capability_scan(reply, 5, reply[4] as nat) {
            Ok(found) => found,
            Err(_) => None,
        }
    } else {
        None
    }
}

/// A minimal BOS buffer announcing exactly one capability record: a
/// Container ID capability (length 20, descriptor type 0x10, capability
/// type 0x04) whose payload is `id`, padded by the record's reserved
/// trailing byte.
pub open spec fn container_id_bos_bytes(id: Seq<u8>) -> Seq<u8> {
    seq![5u8, 0x0fu8, 25u8, 0u8, 1u8, 20u8, 0x10u8, 0x04u8] + id + seq![0u8]
}

/// Encode a Container ID capability into a BOS buffer that announces it as
/// its only record.
pub fn encode_container_id_capability(cid: &ContainerId) -> (r: Vec<u8>)
    ensures
        r@ == container_id_bos_bytes(cid.0@),
{
    let mut out: Vec<u8> = Vec::new();
    out.push(5);
    out.push(0x0f);
    out.push(25);
    out.push(0);
    out.push(1);
    out.push(20);
    out.push(0x10);
    out.push(0x04);
    let mut i: usize = 0;
    while i < 16
        invariant
            i <= 16,
            out@.len() == 8 + i,
            out@.subrange(0, 8) =~= seq![5u8, 0x0fu8, 25u8, 0u8, 1u8, 20u8, 0x10u8, 0x04u8],
            forall|j: int| 0 <= j < i ==> out@[8 + j] == cid.0@[j],
        decreases 16 - i,
    {
        out.push(cid.0[i]);
        i = i + 1;
    }
    out.push(0);
    proof {
        assert(out@ =~= container_id_bos_bytes(cid.0@));
    }
    out
}

/// Round trip: a Container ID capability encoded into a BOS buffer decodes
/// back to the identical 16 bytes.  The encoded buffer carries a valid
/// header, announces one record, and scanning that record yields exactly
/// the payload that went in.
pub proof fn lemma_container_id_round_trip(id: Seq<u8>)
    requires
        id.len() == 16,
    ensures
        bos_header_ok(container_id_bos_bytes(id)),
        container_id_bos_bytes(id)[4] == 1,
        capability_scan(container_id_bos_bytes(id), 5, 1nat) == Ok::<Option<Seq<u8>>, ()>(
            Some(id),
        ),
{
    let d = container_id_bos_bytes(id);
    assert(d.len() == 25);
    assert(d[0] == 5 && d[1] == 0x0f && d[2] == 25 && d[3] == 0 && d[4] == 1);
    assert(d[5] == 20 && d[6] == 0x10 && d[7] == 0x04);
    assert(d.subrange(8, 24) =~= id);
    assert(capability_scan(d, 5, 1nat) == Ok::<Option<Seq<u8>>, ()>(Some(d.subrange(8, 24))));
}

/// Extract the Container ID from a raw BOS transfer reply, tolerating
/// every decode failure.
///
/// This is the whole of the "BOS failure is never fatal" policy: a reply
/// whose header is invalid, whose capability list is malformed, or which
/// simply carries no Container ID capability all yield `None`; only a
/// well-formed reply with a Container ID record yields its 16 bytes.
pub fn container_id_of_reply(reply: &[u8]) -> (r: Option<ContainerId>)
    ensures
        match r {
            Some(c) => bos_reply_container_id(reply@) == Some(c.0@),
            None => bos_reply_container_id(reply@) is None,
        },
{
    match BinaryObjectStoreDescriptor::from_data(reply) {
        Ok(bos) => match bos.container_id() {
            Ok(found) => found,
            Err(_) => None,
        },
        Err(_) => None,
    }
}

/// USB Binary Object Store descriptor
#[derive(Clone, Debug, PartialEq, Eq)]
pub struct BinaryObjectStoreDescriptor {
    data: Vec<u8>,
}

impl View for BinaryObjectStoreDescriptor {
    type V = Seq<u8>;

    closed spec fn view(&self) -> Seq<u8> {
        self.data@
    }
}

impl BinaryObjectStoreDescriptor {
    /// A stored BOS buffer always carries a valid header.
    pub open spec fn wf(&self) -> bool {
        bos_header_ok(self@)
    }

    /// Create a BOS descriptor from the raw transfer response.
    ///
    /// Decoding fails when the buffer is shorter than the 5-byte header,
    /// when the header's length or descriptor-type byte is wrong, or when
    /// the total-length field disagrees with the actual buffer length (a
    /// defence against a transport short-read).
    pub fn from_data(data: &[u8]) -> (r: Result<Self, Error>)
        ensures
            match r {
                Ok(b) => b@ == data@ && bos_header_ok(data@) && b.wf(),
                Err(e) => e == Error::InvalidRespone && !bos_header_ok(data@),
            },
    {
        if data.len() < 5 {
            return Err(Error::InvalidRespone);
        }
        if data[0] != 5 || data[1] != 0x0f {
            return Err(Error::InvalidRespone);
        }
        let total: usize = (data[2] as usize) + 256 * (data[3] as usize);
        if total != data.len() {
            return Err(Error::InvalidRespone);
        }
        Ok(BinaryObjectStoreDescriptor { data: vstd::slice::slice_to_vec(data) })
    }

    /// Get the first Container ID capability, if any.
    ///
    /// Walks the announced capability records in order and returns the
    /// payload of the first Container ID capability, `None` when the list
    /// is exhausted without one, and a decode failure when a record is
    /// malformed; a partially-parsed Container ID is never returned.
    pub fn container_id(&self) -> (r: Result<Option<ContainerId>, Error>)
        requires
            self.wf(),
        ensures
            match r {
                Ok(Some(cid)) => capability_scan(self@, 5, self@[4] as nat) == Ok::<
                    Option<Seq<u8>>,
                    (),
                >(Some(cid.0@)),
                Ok(None) => capability_scan(self@, 5, self@[4] as nat) == Ok::<
                    Option<Seq<u8>>,
                    (),
                >(None),
                Err(e) => e == Error::InvalidRespone && capability_scan(
                    self@,
                    5,
                    self@[4] as nat,
                ) is Err,
            },
    {
        let count = self.data[4];
        let mut off: usize = 5;
        let mut done: u8 = 0;
        while done < count
            invariant
                self.wf(),
                done <= count,
                count == self@[4],
                5 <= off <= self@.len(),
                capability_scan(self@, 5, count as nat) == capability_scan(
                    self@,
                    off as int,
                    (count - done) as nat,
                ),
            decreases count - done,
        {
            let len = self.data.len();
            if len - off < 3 {
                return Err(Error::InvalidRespone);
            }
            let record_length = self.data[off];
            let descriptor_type = self.data[off + 1];
            let capability_type = self.data[off + 2];
            if descriptor_type != 0x10 {
                return Err(Error::InvalidRespone);
            }
            if record_length == 20 && capability_type == 0x04 {
                if len - off < 20 {
                    return Err(Error::InvalidRespone);
                }
                let mut payload: [u8; 16] = [0; 16];
                let mut i: usize = 0;
                while i < 16
                    invariant
                        len == self@.len(),
                        off + 20 <= len,
                        i <= 16,
                        forall|j: int| 0 <= j < i ==> payload@[j] == self@[off + 3 + j],
                    decreases 16 - i,
                {
                    payload[i] = self.data[off + 3 + i];
                    i = i + 1;
                }
                proof {
                    assert(payload@ =~= self@.subrange(off + 3, off + 19));
                }
                return Ok(Some(ContainerId(payload)));
            }
            if len - off < record_length as usize {
                return Err(Error::InvalidRespone);
            }
            off = off + record_length as usize;
            done = done + 1;
        }
        Ok(None)
    }
}

} // verus!
