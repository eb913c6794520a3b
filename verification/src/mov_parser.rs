//! Top-level atom enumerator for MOV-style containers, used only for
//! rough metadata.
//!
//! A container file is a sequence of atoms; each starts with a 4-byte
//! big-endian size (counting the 8-byte header itself) and a 4-byte type
//! tag. The enumerator walks the headers and skips the payloads. An atom
//! whose size runs past the end of the data is still reported and ends
//! the walk, matching a reader that seeks past the end of file; a
//! truncated header or a size below 8 is malformed.

use vstd::prelude::*;

verus! {

/// One top-level atom: its declared size in bytes (header included), its
/// 4-byte type tag, and its offset from the start of the data.
#[derive(Clone, Copy, Debug, PartialEq, Eq)]
pub struct MovAtom {
    pub size: u64,
    pub atom_type: [u8; 4],
    pub offset: u64,
}

/// Why an atom walk failed.
#[derive(Clone, Copy, Debug, PartialEq, Eq, Structural)]
pub enum AtomParseError {
    /// Fewer than 8 bytes remained where an atom header was expected.
    TruncatedHeader,
    /// An atom declared a size below the 8 bytes of its own header.
    UndersizedAtom,
}

/// The big-endian 32-bit integer at offset `i`.
pub open spec fn be32_at(data: Seq<u8>, i: int) -> int {
    data[i] * 0x100_0000 + data[i + 1] * 0x1_0000 + data[i + 2] * 0x100 + data[i + 3]
}

/// An atom as (size, type tag, offset), the shape [`MovAtom`] mirrors.
pub open spec fn atom_view(a: MovAtom) -> (int, Seq<u8>, int) {
    (a.size as int, a.atom_type@, a.offset as int)
}

/// The views of a parsed atom list.
pub open spec fn atom_views(atoms: Seq<MovAtom>) -> Seq<(int, Seq<u8>, int)> {
    atoms.map(|i: int, a: MovAtom| atom_view(a))
}

/// The atoms laid out in `data` from offset `off` to the end: each one's
/// (size, type tag, offset), or the malformation that stops the walk.
pub open spec fn atoms_from(data: Seq<u8>, off: int) -> Result<
    Seq<(int, Seq<u8>, int)>,
    AtomParseError,
>
    decreases data.len() - off,
{
    if off >= data.len() {
        Ok(Seq::empty())
    } else if off + 8 > data.len() {
        Err(AtomParseError::TruncatedHeader)
    } else {
        let size = be32_at(data, off);
        if size < 8 {
            Err(AtomParseError::UndersizedAtom)
        } else {
            let head = (size, data.subrange(off + 4, off + 8), off);
            if off + size >= data.len() {
                Ok(seq![head])
            } else {
                match atoms_from(data, off + size) {
                    Ok(rest) => Ok(seq![head] + rest),
                    Err(e) => Err(e),
                }
            }
        }
    }
}

/// Atom enumerator over the raw bytes of one container file.
pub struct MovParser {
    pub data: Vec<u8>,
}

impl MovParser {
    /// A parser over the given container bytes.
    pub fn new(data: Vec<u8>) -> (p: MovParser)
        ensures
            p.data == data,
    {
        MovParser { data }
    }

    /// Walks the top-level atoms and returns them in file order, or the
    /// malformation that stopped the walk.
    pub fn parse_atoms(&self) -> (r: Result<Vec<MovAtom>, AtomParseError>)
        ensures
            r matches Ok(v) ==> atoms_from(self.data@, 0) == Ok::<_, AtomParseError>(
                atom_views(v@),
            ),
            r matches Err(e) ==> atoms_from(self.data@, 0) == Err::<Seq<(int, Seq<u8>, int)>, _>(
                e,
            ),
    {
        let len = self.data.len();
        let mut atoms: Vec<MovAtom> = Vec::new();
        let mut offset: usize = 0;
        while offset < len
            invariant
                len == self.data@.len(),
                offset <= len,
                match atoms_from(self.data@, offset as int) {
                    Ok(rest) => atoms_from(self.data@, 0) == Ok::<_, AtomParseError>(
                        atom_views(atoms@) + rest,
                    ),
                    Err(e) => atoms_from(self.data@, 0) == Err::<Seq<(int, Seq<u8>, int)>, _>(e),
                },
            decreases len - offset,
        {
            let ghost data = self.data@;
            let ghost off0 = offset as int;
            let ghost atoms0 = atoms@;
            if len - offset < 8 {
                proof {
                    assert(atoms_from(data, off0) == Err::<Seq<(int, Seq<u8>, int)>, _>(
                        AtomParseError::TruncatedHeader,
                    ));
                }
                return Err(AtomParseError::TruncatedHeader);
            }
            let b0 = self.data[offset];
            let b1 = self.data[offset + 1];
            let b2 = self.data[offset + 2];
            let b3 = self.data[offset + 3];
            let size: u32 = (b0 as u32) * 0x100_0000 + (b1 as u32) * 0x1_0000 + (b2 as u32) * 0x100
                + (b3 as u32);
            proof {
                assert(size == be32_at(data, off0));
            }
            if size < 8 {
                proof {
                    assert(atoms_from(data, off0) == Err::<Seq<(int, Seq<u8>, int)>, _>(
                        AtomParseError::UndersizedAtom,
                    ));
                }
                return Err(AtomParseError::UndersizedAtom);
            }
            let atom = MovAtom {
                size: size as u64,
                atom_type: [
                    self.data[offset + 4],
                    self.data[offset + 5],
                    self.data[offset + 6],
                    self.data[offset + 7],
                ],
                offset: offset as u64,
            };
            let ghost head = (size as int, data.subrange(off0 + 4, off0 + 8), off0);
            proof {
                assert(atom_view(atom) == head) by {
                    assert(atom.atom_type@ =~= data.subrange(off0 + 4, off0 + 8));
                }
            }
            atoms.push(atom);
            proof {
                assert(atom_views(atoms@) =~= atom_views(atoms0) + seq![head]);
            }
            if (size as usize) >= len - offset {
                proof {
                    assert(off0 + size >= data.len());
                    assert(atoms_from(data, off0) == Ok::<_, AtomParseError>(seq![head]));
                    assert(atoms_from(data, 0) == Ok::<_, AtomParseError>(
                        atom_views(atoms0) + seq![head],
                    ));
                }
                return Ok(atoms);
            }
            offset = offset + size as usize;
            proof {
                assert(off0 + size < data.len());
                let tail = atoms_from(data, off0 + size);
                if tail is Ok {
                    let rest = tail->Ok_0;
                    assert(atoms_from(data, off0) == Ok::<_, AtomParseError>(seq![head] + rest));
                    assert(atoms_from(data, 0) == Ok::<_, AtomParseError>(
                        atom_views(atoms0) + (seq![head] + rest),
                    ));
                    assert(atom_views(atoms0) + (seq![head] + rest) =~= atom_views(atoms@) + rest);
                } else {
                    let e = tail->Err_0;
                    assert(atoms_from(data, off0) == Err::<Seq<(int, Seq<u8>, int)>, _>(e));
                }
            }
        }
        proof {
            assert(atoms_from(self.data@, offset as int) == Ok::<_, AtomParseError>(
                Seq::<(int, Seq<u8>, int)>::empty(),
            ));
            assert(atom_views(atoms@) + Seq::<(int, Seq<u8>, int)>::empty() =~= atom_views(
                atoms@,
            ));
        }
        Ok(atoms)
    }

    /// Finds the first top-level atom with the given type tag, or `None`
    /// when no atom carries it; fails only when the walk itself fails.
    pub fn find_atom(&self, atom_type: &[u8; 4]) -> (r: Result<Option<MovAtom>, AtomParseError>)
        ensures
            r matches Err(e) ==> atoms_from(self.data@, 0) == Err::<Seq<(int, Seq<u8>, int)>, _>(
                e,
            ),
            r is Ok ==> atoms_from(self.data@, 0) is Ok,
            r matches Ok(Some(a)) ==> exists|i: int|
                #[trigger] first_match(atoms_from(self.data@, 0)->Ok_0, atom_type@, i)
                    && atoms_from(self.data@, 0)->Ok_0[i] == atom_view(a),
            r matches Ok(None) ==> forall|i: int|
                0 <= i < atoms_from(self.data@, 0)->Ok_0.len()
                    ==> (#[trigger] atoms_from(self.data@, 0)->Ok_0[i]).1 != atom_type@,
    {
        let atoms = match self.parse_atoms() {
            Ok(v) => v,
            Err(e) => {
                return Err(e);
            },
        };
        let ghost s = atoms_from(self.data@, 0)->Ok_0;
        let n = atoms.len();
        let mut k: usize = 0;
        while k < n
            invariant
                n == atoms@.len(),
                k <= n,
                s == atom_views(atoms@),
                atoms_from(self.data@, 0) == Ok::<_, AtomParseError>(s),
                forall|i: int| 0 <= i < k ==> (#[trigger] s[i]).1 != atom_type@,
            decreases n - k,
        {
            let a = atoms[k];
            if a.atom_type[0] == atom_type[0] && a.atom_type[1] == atom_type[1]
                && a.atom_type[2] == atom_type[2] && a.atom_type[3] == atom_type[3] {
                proof {
                    assert(a.atom_type@ =~= atom_type@);
                    assert(s[k as int] == atom_view(a));
                    assert(first_match(s, atom_type@, k as int));
                    assert(atoms_from(self.data@, 0)->Ok_0 == s);
                    assert(exists|i: int|
                        #[trigger] first_match(atoms_from(self.data@, 0)->Ok_0, atom_type@, i)
                            && atoms_from(self.data@, 0)->Ok_0[i] == atom_view(a));
                }
                return Ok(Some(a));
            }
            proof {
                assert(s[k as int] == atom_view(atoms@[k as int]));
                assert(s[k as int].1 != atom_type@) by {
                    assert(a.atom_type@[0] != atom_type@[0] || a.atom_type@[1] != atom_type@[1]
                        || a.atom_type@[2] != atom_type@[2] || a.atom_type@[3] != atom_type@[3]);
                }
            }
            k = k + 1;
        }
        Ok(None)
    }
}

/// `s[i]` is the first entry of the atom list whose type tag is `ty`.
pub open spec fn first_match(s: Seq<(int, Seq<u8>, int)>, ty: Seq<u8>, i: int) -> bool {
    &&& 0 <= i < s.len()
    &&& s[i].1 == ty
    &&& forall|j: int| 0 <= j < i ==> (#[trigger] s[j]).1 != ty
}

} // verus!
