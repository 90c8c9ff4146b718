//! The records that packet bodies are assembled from.

use crate::bit_buffer::BitBuffer;
use crate::bits::{
    bits_of, fits_signed, holds_at, lemma_bits_of_len, lemma_holds_concat,
    lemma_overwrite_concat, overwrite,
};
use crate::error::CdisError;
use crate::parsing::{
    lemma_read_fixed_wire, lemma_read_signed_wire, read_fixed, read_signed, spec_read_fixed,
    spec_read_signed, ParseCdis,
};
use crate::types::{SignedVar, SVINT24, UVINT16, UVINT32, UVINT8};
use crate::writing::{fits_signed_width, put_signed, signed_bits, SerializeCdis};
use vstd::arithmetic::power2::lemma2_to64;
use vstd::prelude::*;

verus! {

/// Values that can be compared field by field.
pub trait Same: Sized {
    /// Whether the two values are equal in every field.
    fn same(&self, other: &Self) -> (same: bool)
        ensures
            same == (*self == *other),
    ;
}

/// Whether two optional fields are both absent or hold equal values.
pub fn optional_same<R: Same>(a: &Option<R>, b: &Option<R>) -> (same: bool)
    ensures
        same == (*a == *b),
{
    match (a, b) {
        (Some(x), Some(y)) => x.same(y),
        (None, None) => true,
        _ => false,
    }
}

impl<const BITS: u8> Same for crate::types::UnsignedVar<BITS> {
    fn same(&self, other: &Self) -> (same: bool) {
        self.value == other.value
    }
}

impl<const BITS: u8> Same for crate::types::SignedVar<BITS> {
    fn same(&self, other: &Self) -> (same: bool) {
        self.value == other.value
    }
}

/// The identifier of an entity: site, application and entity number.
#[derive(Clone, Copy, Debug, PartialEq, Eq)]
pub struct EntityId {
    pub site: UVINT16,
    pub application: UVINT16,
    pub entity: UVINT16,
}

impl EntityId {
    pub fn new(site: UVINT16, application: UVINT16, entity: UVINT16) -> (id: EntityId)
        ensures
            id == (EntityId { site, application, entity }),
    {
        EntityId { site, application, entity }
    }

    /// The identifier as the triple of its three numbers.
    pub open spec fn triple(&self) -> (int, int, int) {
        (self.site.value as int, self.application.value as int, self.entity.value as int)
    }
}

impl Same for EntityId {
    fn same(&self, other: &Self) -> (same: bool) {
        self.site.same(&other.site) && self.application.same(&other.application)
            && self.entity.same(&other.entity)
    }
}

impl SerializeCdis for EntityId {
    open spec fn max_bits() -> nat {
        102
    }

    open spec fn wf(&self) -> bool {
        self.site.wf() && self.application.wf() && self.entity.wf()
    }

    open spec fn wire_bits(&self) -> Seq<bool> {
        self.site.wire_bits() + self.application.wire_bits() + self.entity.wire_bits()
    }

    fn is_valid(&self) -> (valid: bool) {
        self.site.is_valid() && self.application.is_valid() && self.entity.is_valid()
    }

    fn bit_length(&self) -> (n: usize)
        ensures
            n <= 102,
    {
        self.site.bit_length() + self.application.bit_length() + self.entity.bit_length()
    }

    fn serialize(&self, buf: &mut BitBuffer, cursor: usize) -> (next: usize) {
        let ghost a = self.site.wire_bits();
        let ghost b = self.application.wire_bits();
        let ghost c = self.entity.wire_bits();
        proof {
            lemma_overwrite_concat(old(buf)@, cursor as int, a, b);
            lemma_overwrite_concat(old(buf)@, cursor as int, a + b, c);
        }
        let next = self.site.serialize(buf, cursor);
        let next = self.application.serialize(buf, next);
        self.entity.serialize(buf, next)
    }
}

impl ParseCdis for EntityId {
    open spec fn spec_parse(bits: Seq<bool>, cursor: nat) -> Result<(Self, nat), CdisError> {
        match UVINT16::spec_parse(bits, cursor) {
            Err(e) => Err(e),
            Ok((site, c1)) => match UVINT16::spec_parse(bits, c1) {
                Err(e) => Err(e),
                Ok((application, c2)) => match UVINT16::spec_parse(bits, c2) {
                    Err(e) => Err(e),
                    Ok((entity, c3)) => Ok((EntityId { site, application, entity }, c3)),
                },
            },
        }
    }

    fn parse(buf: &BitBuffer, cursor: usize) -> (r: Result<(Self, usize), CdisError>) {
        let (site, next) = UVINT16::parse(buf, cursor)?;
        let (application, next) = UVINT16::parse(buf, next)?;
        let (entity, next) = UVINT16::parse(buf, next)?;
        Ok((EntityId { site, application, entity }, next))
    }

    proof fn lemma_parse_wire(bits: Seq<bool>, cursor: nat, record: Self) {
        let a = record.site.wire_bits();
        let b = record.application.wire_bits();
        let c = record.entity.wire_bits();
        lemma_holds_concat(bits, cursor as int, a + b, c);
        lemma_holds_concat(bits, cursor as int, a, b);
        UVINT16::lemma_parse_wire(bits, cursor, record.site);
        UVINT16::lemma_parse_wire(bits, cursor + a.len(), record.application);
        UVINT16::lemma_parse_wire(bits, cursor + a.len() + b.len(), record.entity);
    }
}

/// The type of an entity: kind (4 bits), domain (4 bits), country (9 bits)
/// and four variable-width classifiers.
#[derive(Clone, Copy, Debug, PartialEq, Eq)]
pub struct EntityType {
    pub kind: u8,
    pub domain: u8,
    pub country: u16,
    pub category: UVINT8,
    pub subcategory: UVINT8,
    pub specific: UVINT8,
    pub extra: UVINT8,
}

impl EntityType {
    pub fn new(
        kind: u8,
        domain: u8,
        country: u16,
        category: UVINT8,
        subcategory: UVINT8,
        specific: UVINT8,
        extra: UVINT8,
    ) -> (t: EntityType)
        ensures
            t == (EntityType { kind, domain, country, category, subcategory, specific, extra }),
    {
        EntityType { kind, domain, country, category, subcategory, specific, extra }
    }

    /// The three fixed-width fields at the head of the wire form.
    pub open spec fn head_bits(&self) -> Seq<bool> {
        bits_of(self.kind as nat, 4) + bits_of(self.domain as nat, 4) + bits_of(
            self.country as nat,
            9,
        )
    }
}

impl Same for EntityType {
    fn same(&self, other: &Self) -> (same: bool) {
        self.kind == other.kind && self.domain == other.domain && self.country == other.country
            && self.category.same(&other.category) && self.subcategory.same(&other.subcategory)
            && self.specific.same(&other.specific) && self.extra.same(&other.extra)
    }
}

impl SerializeCdis for EntityType {
    open spec fn max_bits() -> nat {
        153
    }

    open spec fn wf(&self) -> bool {
        &&& self.kind < 16
        &&& self.domain < 16
        &&& self.country < 512
        &&& self.category.wf()
        &&& self.subcategory.wf()
        &&& self.specific.wf()
        &&& self.extra.wf()
    }

    open spec fn wire_bits(&self) -> Seq<bool> {
        self.head_bits() + self.category.wire_bits() + self.subcategory.wire_bits()
            + self.specific.wire_bits() + self.extra.wire_bits()
    }

    fn is_valid(&self) -> (valid: bool) {
        self.kind < 16 && self.domain < 16 && self.country < 512 && self.category.is_valid()
            && self.subcategory.is_valid() && self.specific.is_valid() && self.extra.is_valid()
    }

    fn bit_length(&self) -> (n: usize)
        ensures
            n <= 153,
    {
        proof {
            lemma_bits_of_len(self.kind as nat, 4);
            lemma_bits_of_len(self.domain as nat, 4);
            lemma_bits_of_len(self.country as nat, 9);
        }
        17 + self.category.bit_length() + self.subcategory.bit_length()
            + self.specific.bit_length() + self.extra.bit_length()
    }

    fn serialize(&self, buf: &mut BitBuffer, cursor: usize) -> (next: usize) {
        let ghost k = bits_of(self.kind as nat, 4);
        let ghost d = bits_of(self.domain as nat, 4);
        let ghost c = bits_of(self.country as nat, 9);
        let ghost w1 = self.category.wire_bits();
        let ghost w2 = self.subcategory.wire_bits();
        let ghost w3 = self.specific.wire_bits();
        let ghost w4 = self.extra.wire_bits();
        proof {
            lemma2_to64();
            lemma_bits_of_len(self.kind as nat, 4);
            lemma_bits_of_len(self.domain as nat, 4);
            lemma_bits_of_len(self.country as nat, 9);
            lemma_overwrite_concat(old(buf)@, cursor as int, k, d);
            lemma_overwrite_concat(old(buf)@, cursor as int, k + d, c);
            lemma_overwrite_concat(old(buf)@, cursor as int, k + d + c, w1);
            lemma_overwrite_concat(old(buf)@, cursor as int, k + d + c + w1, w2);
            lemma_overwrite_concat(old(buf)@, cursor as int, k + d + c + w1 + w2, w3);
            lemma_overwrite_concat(old(buf)@, cursor as int, k + d + c + w1 + w2 + w3, w4);
        }
        let next = buf.put(cursor, 4, self.kind as u64);
        let next = buf.put(next, 4, self.domain as u64);
        let next = buf.put(next, 9, self.country as u64);
        let next = self.category.serialize(buf, next);
        let next = self.subcategory.serialize(buf, next);
        let next = self.specific.serialize(buf, next);
        self.extra.serialize(buf, next)
    }
}

impl ParseCdis for EntityType {
    open spec fn spec_parse(bits: Seq<bool>, cursor: nat) -> Result<(Self, nat), CdisError> {
        match spec_read_fixed(bits, cursor, 4) {
            Err(e) => Err(e),
            Ok((kind, c1)) => match spec_read_fixed(bits, c1, 4) {
                Err(e) => Err(e),
                Ok((domain, c2)) => match spec_read_fixed(bits, c2, 9) {
                    Err(e) => Err(e),
                    Ok((country, c3)) => match UVINT8::spec_parse(bits, c3) {
                        Err(e) => Err(e),
                        Ok((category, c4)) => match UVINT8::spec_parse(bits, c4) {
                            Err(e) => Err(e),
                            Ok((subcategory, c5)) => match UVINT8::spec_parse(bits, c5) {
                                Err(e) => Err(e),
                                Ok((specific, c6)) => match UVINT8::spec_parse(bits, c6) {
                                    Err(e) => Err(e),
                                    Ok((extra, c7)) => Ok(
                                        (
                                            EntityType {
                                                kind: kind as u8,
                                                domain: domain as u8,
                                                country: country as u16,
                                                category,
                                                subcategory,
                                                specific,
                                                extra,
                                            },
                                            c7,
                                        ),
                                    ),
                                },
                            },
                        },
                    },
                },
            },
        }
    }

    fn parse(buf: &BitBuffer, cursor: usize) -> (r: Result<(Self, usize), CdisError>) {
        proof {
            lemma2_to64();
        }
        let (kind, next) = read_fixed(buf, cursor, 4)?;
        let (domain, next) = read_fixed(buf, next, 4)?;
        let (country, next) = read_fixed(buf, next, 9)?;
        let (category, next) = UVINT8::parse(buf, next)?;
        let (subcategory, next) = UVINT8::parse(buf, next)?;
        let (specific, next) = UVINT8::parse(buf, next)?;
        let (extra, next) = UVINT8::parse(buf, next)?;
        Ok(
            (
                EntityType {
                    kind: kind as u8,
                    domain: domain as u8,
                    country: country as u16,
                    category,
                    subcategory,
                    specific,
                    extra,
                },
                next,
            ),
        )
    }

    proof fn lemma_parse_wire(bits: Seq<bool>, cursor: nat, record: Self) {
        let k = bits_of(record.kind as nat, 4);
        let d = bits_of(record.domain as nat, 4);
        let c = bits_of(record.country as nat, 9);
        let w1 = record.category.wire_bits();
        let w2 = record.subcategory.wire_bits();
        let w3 = record.specific.wire_bits();
        let w4 = record.extra.wire_bits();
        let at = cursor as int;
        lemma2_to64();
        lemma_bits_of_len(record.kind as nat, 4);
        lemma_bits_of_len(record.domain as nat, 4);
        lemma_bits_of_len(record.country as nat, 9);
        lemma_holds_concat(bits, at, k + d + c + w1 + w2 + w3, w4);
        lemma_holds_concat(bits, at, k + d + c + w1 + w2, w3);
        lemma_holds_concat(bits, at, k + d + c + w1, w2);
        lemma_holds_concat(bits, at, k + d + c, w1);
        lemma_holds_concat(bits, at, k + d, c);
        lemma_holds_concat(bits, at, k, d);
        lemma_read_fixed_wire(bits, cursor, 4, record.kind as nat);
        lemma_read_fixed_wire(bits, cursor + 4, 4, record.domain as nat);
        lemma_read_fixed_wire(bits, cursor + 8, 9, record.country as nat);
        UVINT8::lemma_parse_wire(bits, cursor + 17, record.category);
        UVINT8::lemma_parse_wire(bits, cursor + 17 + w1.len(), record.subcategory);
        UVINT8::lemma_parse_wire(bits, cursor + 17 + w1.len() + w2.len(), record.specific);
        UVINT8::lemma_parse_wire(
            bits,
            cursor + 17 + w1.len() + w2.len() + w3.len(),
            record.extra,
        );
    }
}

/// Three signed variable-width components of the family with at most `BITS` bits.
#[derive(Clone, Copy, Debug, PartialEq, Eq)]
pub struct SignedVector<const BITS: u8> {
    pub x: SignedVar<BITS>,
    pub y: SignedVar<BITS>,
    pub z: SignedVar<BITS>,
}

/// Linear velocity, in decimetres per second.
pub type LinearVelocity = SignedVector<16>;

/// Linear acceleration, in decimetres per second squared.
pub type LinearAcceleration = SignedVector<14>;

/// Angular velocity about the three body axes.
pub type AngularVelocity = SignedVector<12>;

/// A location relative to an entity's own origin.
pub type EntityCoordinateVector = SignedVector<16>;

impl<const BITS: u8> SignedVector<BITS> {
    pub fn new(x: SignedVar<BITS>, y: SignedVar<BITS>, z: SignedVar<BITS>) -> (v: Self)
        ensures
            v == (SignedVector { x, y, z }),
    {
        SignedVector { x, y, z }
    }
}

impl<const BITS: u8> Same for SignedVector<BITS> {
    fn same(&self, other: &Self) -> (same: bool) {
        self.x.same(&other.x) && self.y.same(&other.y) && self.z.same(&other.z)
    }
}

impl<const BITS: u8> SerializeCdis for SignedVector<BITS> {
    open spec fn max_bits() -> nat {
        102
    }

    open spec fn wf(&self) -> bool {
        self.x.wf() && self.y.wf() && self.z.wf()
    }

    open spec fn wire_bits(&self) -> Seq<bool> {
        self.x.wire_bits() + self.y.wire_bits() + self.z.wire_bits()
    }

    fn is_valid(&self) -> (valid: bool) {
        self.x.is_valid() && self.y.is_valid() && self.z.is_valid()
    }

    fn bit_length(&self) -> (n: usize)
        ensures
            n <= 102,
    {
        self.x.bit_length() + self.y.bit_length() + self.z.bit_length()
    }

    fn serialize(&self, buf: &mut BitBuffer, cursor: usize) -> (next: usize) {
        let ghost a = self.x.wire_bits();
        let ghost b = self.y.wire_bits();
        let ghost c = self.z.wire_bits();
        proof {
            lemma_overwrite_concat(old(buf)@, cursor as int, a, b);
            lemma_overwrite_concat(old(buf)@, cursor as int, a + b, c);
        }
        let next = self.x.serialize(buf, cursor);
        let next = self.y.serialize(buf, next);
        self.z.serialize(buf, next)
    }
}

impl<const BITS: u8> ParseCdis for SignedVector<BITS> {
    open spec fn spec_parse(bits: Seq<bool>, cursor: nat) -> Result<(Self, nat), CdisError> {
        match SignedVar::<BITS>::spec_parse(bits, cursor) {
            Err(e) => Err(e),
            Ok((x, c1)) => match SignedVar::<BITS>::spec_parse(bits, c1) {
                Err(e) => Err(e),
                Ok((y, c2)) => match SignedVar::<BITS>::spec_parse(bits, c2) {
                    Err(e) => Err(e),
                    Ok((z, c3)) => Ok((SignedVector { x, y, z }, c3)),
                },
            },
        }
    }

    fn parse(buf: &BitBuffer, cursor: usize) -> (r: Result<(Self, usize), CdisError>) {
        let (x, next) = SignedVar::<BITS>::parse(buf, cursor)?;
        let (y, next) = SignedVar::<BITS>::parse(buf, next)?;
        let (z, next) = SignedVar::<BITS>::parse(buf, next)?;
        Ok((SignedVector { x, y, z }, next))
    }

    proof fn lemma_parse_wire(bits: Seq<bool>, cursor: nat, record: Self) {
        let a = record.x.wire_bits();
        let b = record.y.wire_bits();
        let c = record.z.wire_bits();
        lemma_holds_concat(bits, cursor as int, a + b, c);
        lemma_holds_concat(bits, cursor as int, a, b);
        SignedVar::<BITS>::lemma_parse_wire(bits, cursor, record.x);
        SignedVar::<BITS>::lemma_parse_wire(bits, cursor + a.len(), record.y);
        SignedVar::<BITS>::lemma_parse_wire(bits, cursor + a.len() + b.len(), record.z);
    }
}

/// A geodetic location: latitude in 31 bits, longitude in 32 bits, both as
/// scaled two's complement numbers, and the altitude above mean sea level.
#[derive(Clone, Copy, Debug, PartialEq, Eq)]
pub struct WorldCoordinates {
    pub latitude: i32,
    pub longitude: i32,
    pub altitude_msl: SVINT24,
}

impl WorldCoordinates {
    pub fn new(latitude: i32, longitude: i32, altitude_msl: SVINT24) -> (w: WorldCoordinates)
        ensures
            w == (WorldCoordinates { latitude, longitude, altitude_msl }),
    {
        WorldCoordinates { latitude, longitude, altitude_msl }
    }
}

impl Same for WorldCoordinates {
    fn same(&self, other: &Self) -> (same: bool) {
        self.latitude == other.latitude && self.longitude == other.longitude
            && self.altitude_msl.same(&other.altitude_msl)
    }
}

impl SerializeCdis for WorldCoordinates {
    open spec fn max_bits() -> nat {
        97
    }

    open spec fn wf(&self) -> bool {
        &&& fits_signed(self.latitude as int, 31)
        &&& self.altitude_msl.wf()
    }

    open spec fn wire_bits(&self) -> Seq<bool> {
        signed_bits(self.latitude as int, 31) + signed_bits(self.longitude as int, 32)
            + self.altitude_msl.wire_bits()
    }

    fn is_valid(&self) -> (valid: bool) {
        fits_signed_width(self.latitude as i64, 31) && self.altitude_msl.is_valid()
    }

    fn bit_length(&self) -> (n: usize)
        ensures
            n <= 97,
    {
        proof {
            lemma_bits_of_len(crate::bits::twos_complement(self.latitude as int, 31), 31);
            lemma_bits_of_len(crate::bits::twos_complement(self.longitude as int, 32), 32);
        }
        63 + self.altitude_msl.bit_length()
    }

    fn serialize(&self, buf: &mut BitBuffer, cursor: usize) -> (next: usize) {
        let ghost a = signed_bits(self.latitude as int, 31);
        let ghost b = signed_bits(self.longitude as int, 32);
        let ghost c = self.altitude_msl.wire_bits();
        proof {
            lemma2_to64();
            lemma_bits_of_len(crate::bits::twos_complement(self.latitude as int, 31), 31);
            lemma_bits_of_len(crate::bits::twos_complement(self.longitude as int, 32), 32);
            lemma_overwrite_concat(old(buf)@, cursor as int, a, b);
            lemma_overwrite_concat(old(buf)@, cursor as int, a + b, c);
        }
        let next = put_signed(buf, cursor, 31, self.latitude as i64);
        let next = put_signed(buf, next, 32, self.longitude as i64);
        self.altitude_msl.serialize(buf, next)
    }
}

impl ParseCdis for WorldCoordinates {
    open spec fn spec_parse(bits: Seq<bool>, cursor: nat) -> Result<(Self, nat), CdisError> {
        match spec_read_signed(bits, cursor, 31) {
            Err(e) => Err(e),
            Ok((latitude, c1)) => match spec_read_signed(bits, c1, 32) {
                Err(e) => Err(e),
                Ok((longitude, c2)) => match SVINT24::spec_parse(bits, c2) {
                    Err(e) => Err(e),
                    Ok((altitude_msl, c3)) => Ok(
                        (
                            WorldCoordinates {
                                latitude: latitude as i32,
                                longitude: longitude as i32,
                                altitude_msl,
                            },
                            c3,
                        ),
                    ),
                },
            },
        }
    }

    fn parse(buf: &BitBuffer, cursor: usize) -> (r: Result<(Self, usize), CdisError>) {
        proof {
            lemma2_to64();
        }
        let (latitude, next) = read_signed(buf, cursor, 31)?;
        let (longitude, next) = read_signed(buf, next, 32)?;
        let (altitude_msl, next) = SVINT24::parse(buf, next)?;
        Ok(
            (
                WorldCoordinates {
                    latitude: latitude as i32,
                    longitude: longitude as i32,
                    altitude_msl,
                },
                next,
            ),
        )
    }

    proof fn lemma_parse_wire(bits: Seq<bool>, cursor: nat, record: Self) {
        let a = signed_bits(record.latitude as int, 31);
        let b = signed_bits(record.longitude as int, 32);
        let c = record.altitude_msl.wire_bits();
        lemma2_to64();
        lemma_bits_of_len(crate::bits::twos_complement(record.latitude as int, 31), 31);
        lemma_bits_of_len(crate::bits::twos_complement(record.longitude as int, 32), 32);
        lemma_holds_concat(bits, cursor as int, a + b, c);
        lemma_holds_concat(bits, cursor as int, a, b);
        lemma_read_signed_wire(bits, cursor, 31, record.latitude as int);
        lemma_read_signed_wire(bits, cursor + 31, 32, record.longitude as int);
        SVINT24::lemma_parse_wire(bits, cursor + 63, record.altitude_msl);
    }
}

/// An orientation as three Euler angles, each a 13-bit two's complement number.
#[derive(Clone, Copy, Debug, PartialEq, Eq, Structural)]
pub struct Orientation {
    pub psi: i16,
    pub theta: i16,
    pub phi: i16,
}

impl Orientation {
    pub fn new(psi: i16, theta: i16, phi: i16) -> (o: Orientation)
        ensures
            o == (Orientation { psi, theta, phi }),
    {
        Orientation { psi, theta, phi }
    }
}

impl Same for Orientation {
    fn same(&self, other: &Self) -> (same: bool) {
        self.psi == other.psi && self.theta == other.theta && self.phi == other.phi
    }
}

impl SerializeCdis for Orientation {
    open spec fn max_bits() -> nat {
        39
    }

    open spec fn wf(&self) -> bool {
        &&& fits_signed(self.psi as int, 13)
        &&& fits_signed(self.theta as int, 13)
        &&& fits_signed(self.phi as int, 13)
    }

    open spec fn wire_bits(&self) -> Seq<bool> {
        signed_bits(self.psi as int, 13) + signed_bits(self.theta as int, 13) + signed_bits(
            self.phi as int,
            13,
        )
    }

    fn is_valid(&self) -> (valid: bool) {
        fits_signed_width(self.psi as i64, 13) && fits_signed_width(self.theta as i64, 13)
            && fits_signed_width(self.phi as i64, 13)
    }

    fn bit_length(&self) -> (n: usize)
        ensures
            n == 39,
    {
        proof {
            lemma_bits_of_len(crate::bits::twos_complement(self.psi as int, 13), 13);
            lemma_bits_of_len(crate::bits::twos_complement(self.theta as int, 13), 13);
            lemma_bits_of_len(crate::bits::twos_complement(self.phi as int, 13), 13);
        }
        39
    }

    fn serialize(&self, buf: &mut BitBuffer, cursor: usize) -> (next: usize) {
        let ghost a = signed_bits(self.psi as int, 13);
        let ghost b = signed_bits(self.theta as int, 13);
        let ghost c = signed_bits(self.phi as int, 13);
        proof {
            lemma_bits_of_len(crate::bits::twos_complement(self.psi as int, 13), 13);
            lemma_bits_of_len(crate::bits::twos_complement(self.theta as int, 13), 13);
            lemma_bits_of_len(crate::bits::twos_complement(self.phi as int, 13), 13);
            lemma_overwrite_concat(old(buf)@, cursor as int, a, b);
            lemma_overwrite_concat(old(buf)@, cursor as int, a + b, c);
        }
        let next = put_signed(buf, cursor, 13, self.psi as i64);
        let next = put_signed(buf, next, 13, self.theta as i64);
        put_signed(buf, next, 13, self.phi as i64)
    }
}

impl ParseCdis for Orientation {
    open spec fn spec_parse(bits: Seq<bool>, cursor: nat) -> Result<(Self, nat), CdisError> {
        match spec_read_signed(bits, cursor, 13) {
            Err(e) => Err(e),
            Ok((psi, c1)) => match spec_read_signed(bits, c1, 13) {
                Err(e) => Err(e),
                Ok((theta, c2)) => match spec_read_signed(bits, c2, 13) {
                    Err(e) => Err(e),
                    Ok((phi, c3)) => Ok(
                        (Orientation { psi: psi as i16, theta: theta as i16, phi: phi as i16 }, c3),
                    ),
                },
            },
        }
    }

    fn parse(buf: &BitBuffer, cursor: usize) -> (r: Result<(Self, usize), CdisError>) {
        proof {
            lemma2_to64();
        }
        let (psi, next) = read_signed(buf, cursor, 13)?;
        let (theta, next) = read_signed(buf, next, 13)?;
        let (phi, next) = read_signed(buf, next, 13)?;
        Ok((Orientation { psi: psi as i16, theta: theta as i16, phi: phi as i16 }, next))
    }

    proof fn lemma_parse_wire(bits: Seq<bool>, cursor: nat, record: Self) {
        let a = signed_bits(record.psi as int, 13);
        let b = signed_bits(record.theta as int, 13);
        let c = signed_bits(record.phi as int, 13);
        lemma_bits_of_len(crate::bits::twos_complement(record.psi as int, 13), 13);
        lemma_bits_of_len(crate::bits::twos_complement(record.theta as int, 13), 13);
        lemma_bits_of_len(crate::bits::twos_complement(record.phi as int, 13), 13);
        lemma_holds_concat(bits, cursor as int, a + b, c);
        lemma_holds_concat(bits, cursor as int, a, b);
        lemma_read_signed_wire(bits, cursor, 13, record.psi as int);
        lemma_read_signed_wire(bits, cursor + 13, 13, record.theta as int);
        lemma_read_signed_wire(bits, cursor + 26, 13, record.phi as int);
    }
}

/// The appearance of an entity: a 32-bit field of flags.
#[derive(Clone, Copy, Debug, PartialEq, Eq, Structural)]
pub struct CdisEntityAppearance(pub u32);

impl Same for CdisEntityAppearance {
    fn same(&self, other: &Self) -> (same: bool) {
        self.0 == other.0
    }
}

impl SerializeCdis for CdisEntityAppearance {
    open spec fn max_bits() -> nat {
        32
    }

    open spec fn wf(&self) -> bool {
        true
    }

    open spec fn wire_bits(&self) -> Seq<bool> {
        bits_of(self.0 as nat, 32)
    }

    fn is_valid(&self) -> (valid: bool) {
        true
    }

    fn bit_length(&self) -> (n: usize)
        ensures
            n == 32,
    {
        proof {
            lemma_bits_of_len(self.0 as nat, 32);
        }
        32
    }

    fn serialize(&self, buf: &mut BitBuffer, cursor: usize) -> (next: usize) {
        proof {
            lemma2_to64();
            lemma_bits_of_len(self.0 as nat, 32);
        }
        buf.put(cursor, 32, self.0 as u64)
    }
}

impl ParseCdis for CdisEntityAppearance {
    open spec fn spec_parse(bits: Seq<bool>, cursor: nat) -> Result<(Self, nat), CdisError> {
        match spec_read_fixed(bits, cursor, 32) {
            Err(e) => Err(e),
            Ok((flags, next)) => Ok((CdisEntityAppearance(flags as u32), next)),
        }
    }

    fn parse(buf: &BitBuffer, cursor: usize) -> (r: Result<(Self, usize), CdisError>) {
        proof {
            lemma2_to64();
        }
        let (flags, next) = read_fixed(buf, cursor, 32)?;
        Ok((CdisEntityAppearance(flags as u32), next))
    }

    proof fn lemma_parse_wire(bits: Seq<bool>, cursor: nat, record: Self) {
        lemma2_to64();
        lemma_bits_of_len(record.0 as nat, 32);
        lemma_read_fixed_wire(bits, cursor, 32, record.0 as nat);
    }
}

/// The capabilities of an entity: a field of flags sent as a variable-width integer.
#[derive(Clone, Copy, Debug, PartialEq, Eq)]
pub struct CdisEntityCapabilities(pub UVINT32);

impl Same for CdisEntityCapabilities {
    fn same(&self, other: &Self) -> (same: bool) {
        self.0.same(&other.0)
    }
}

impl SerializeCdis for CdisEntityCapabilities {
    open spec fn max_bits() -> nat {
        34
    }

    open spec fn wf(&self) -> bool {
        self.0.wf()
    }

    open spec fn wire_bits(&self) -> Seq<bool> {
        self.0.wire_bits()
    }

    fn is_valid(&self) -> (valid: bool) {
        self.0.is_valid()
    }

    fn bit_length(&self) -> (n: usize)
        ensures
            n <= 34,
    {
        self.0.bit_length()
    }

    fn serialize(&self, buf: &mut BitBuffer, cursor: usize) -> (next: usize) {
        self.0.serialize(buf, cursor)
    }
}

impl ParseCdis for CdisEntityCapabilities {
    open spec fn spec_parse(bits: Seq<bool>, cursor: nat) -> Result<(Self, nat), CdisError> {
        match UVINT32::spec_parse(bits, cursor) {
            Err(e) => Err(e),
            Ok((flags, next)) => Ok((CdisEntityCapabilities(flags), next)),
        }
    }

    fn parse(buf: &BitBuffer, cursor: usize) -> (r: Result<(Self, usize), CdisError>) {
        let (flags, next) = UVINT32::parse(buf, cursor)?;
        Ok((CdisEntityCapabilities(flags), next))
    }

    proof fn lemma_parse_wire(bits: Seq<bool>, cursor: nat, record: Self) {
        UVINT32::lemma_parse_wire(bits, cursor, record.0);
    }
}

/// The additional dead-reckoning parameters, 120 bits in all: the kind of
/// data that follows, a 16-bit head and three 32-bit components.
///
/// The kind is stored as it comes. It is not held against the dead-reckoning
/// algorithm of the record that carries it; see [`DrParametersKind`].
#[derive(Clone, Copy, Debug, PartialEq, Eq, Structural)]
pub struct CdisDRParametersOther {
    pub parameters_type: u8,
    pub head: u16,
    pub x: u32,
    pub y: u32,
    pub z: u32,
}

/// What the additional dead-reckoning parameters hold.
#[derive(Clone, Copy, Debug, PartialEq, Eq, Structural)]
pub enum DrParametersKind {
    /// No additional data; the components are padding.
    Unused,
    /// Local Euler angles: yaw, pitch and roll.
    LocalEulerAngles,
    /// A world-orientation quaternion.
    WorldOrientationQuaternion,
}

impl CdisDRParametersOther {
    /// The kind of data held, or `UnknownDiscriminant`.
    pub open spec fn spec_kind(&self) -> Result<DrParametersKind, CdisError> {
        if self.parameters_type == 0 {
            Ok(DrParametersKind::Unused)
        } else if self.parameters_type == 1 {
            Ok(DrParametersKind::LocalEulerAngles)
        } else if self.parameters_type == 2 {
            Ok(DrParametersKind::WorldOrientationQuaternion)
        } else {
            Err(CdisError::UnknownDiscriminant)
        }
    }

    /// The kind of data held, or `UnknownDiscriminant` for a kind outside the
    /// three that exist.
    pub fn kind(&self) -> (r: Result<DrParametersKind, CdisError>)
        ensures
            r == self.spec_kind(),
    {
        if self.parameters_type == 0 {
            Ok(DrParametersKind::Unused)
        } else if self.parameters_type == 1 {
            Ok(DrParametersKind::LocalEulerAngles)
        } else if self.parameters_type == 2 {
            Ok(DrParametersKind::WorldOrientationQuaternion)
        } else {
            Err(CdisError::UnknownDiscriminant)
        }
    }
}

impl Same for CdisDRParametersOther {
    fn same(&self, other: &Self) -> (same: bool) {
        self.parameters_type == other.parameters_type && self.head == other.head && self.x
            == other.x && self.y == other.y && self.z == other.z
    }
}

impl SerializeCdis for CdisDRParametersOther {
    open spec fn max_bits() -> nat {
        120
    }

    open spec fn wf(&self) -> bool {
        true
    }

    open spec fn wire_bits(&self) -> Seq<bool> {
        bits_of(self.parameters_type as nat, 8) + bits_of(self.head as nat, 16) + bits_of(
            self.x as nat,
            32,
        ) + bits_of(self.y as nat, 32) + bits_of(self.z as nat, 32)
    }

    fn is_valid(&self) -> (valid: bool) {
        true
    }

    fn bit_length(&self) -> (n: usize)
        ensures
            n == 120,
    {
        proof {
            lemma_bits_of_len(self.parameters_type as nat, 8);
            lemma_bits_of_len(self.head as nat, 16);
            lemma_bits_of_len(self.x as nat, 32);
            lemma_bits_of_len(self.y as nat, 32);
            lemma_bits_of_len(self.z as nat, 32);
        }
        120
    }

    fn serialize(&self, buf: &mut BitBuffer, cursor: usize) -> (next: usize) {
        let ghost t = bits_of(self.parameters_type as nat, 8);
        let ghost h = bits_of(self.head as nat, 16);
        let ghost x = bits_of(self.x as nat, 32);
        let ghost y = bits_of(self.y as nat, 32);
        let ghost z = bits_of(self.z as nat, 32);
        proof {
            lemma2_to64();
            lemma_bits_of_len(self.parameters_type as nat, 8);
            lemma_bits_of_len(self.head as nat, 16);
            lemma_bits_of_len(self.x as nat, 32);
            lemma_bits_of_len(self.y as nat, 32);
            lemma_bits_of_len(self.z as nat, 32);
            lemma_overwrite_concat(old(buf)@, cursor as int, t, h);
            lemma_overwrite_concat(old(buf)@, cursor as int, t + h, x);
            lemma_overwrite_concat(old(buf)@, cursor as int, t + h + x, y);
            lemma_overwrite_concat(old(buf)@, cursor as int, t + h + x + y, z);
        }
        let next = buf.put(cursor, 8, self.parameters_type as u64);
        let next = buf.put(next, 16, self.head as u64);
        let next = buf.put(next, 32, self.x as u64);
        let next = buf.put(next, 32, self.y as u64);
        buf.put(next, 32, self.z as u64)
    }
}

impl ParseCdis for CdisDRParametersOther {
    open spec fn spec_parse(bits: Seq<bool>, cursor: nat) -> Result<(Self, nat), CdisError> {
        match spec_read_fixed(bits, cursor, 8) {
            Err(e) => Err(e),
            Ok((parameters_type, c1)) => match spec_read_fixed(bits, c1, 16) {
                Err(e) => Err(e),
                Ok((head, c2)) => match spec_read_fixed(bits, c2, 32) {
                    Err(e) => Err(e),
                    Ok((x, c3)) => match spec_read_fixed(bits, c3, 32) {
                        Err(e) => Err(e),
                        Ok((y, c4)) => match spec_read_fixed(bits, c4, 32) {
                            Err(e) => Err(e),
                            Ok((z, c5)) => Ok(
                                (
                                    CdisDRParametersOther {
                                        parameters_type: parameters_type as u8,
                                        head: head as u16,
                                        x: x as u32,
                                        y: y as u32,
                                        z: z as u32,
                                    },
                                    c5,
                                ),
                            ),
                        },
                    },
                },
            },
        }
    }

    fn parse(buf: &BitBuffer, cursor: usize) -> (r: Result<(Self, usize), CdisError>) {
        proof {
            lemma2_to64();
        }
        let (parameters_type, next) = read_fixed(buf, cursor, 8)?;
        let (head, next) = read_fixed(buf, next, 16)?;
        let (x, next) = read_fixed(buf, next, 32)?;
        let (y, next) = read_fixed(buf, next, 32)?;
        let (z, next) = read_fixed(buf, next, 32)?;
        Ok(
            (
                CdisDRParametersOther {
                    parameters_type: parameters_type as u8,
                    head: head as u16,
                    x: x as u32,
                    y: y as u32,
                    z: z as u32,
                },
                next,
            ),
        )
    }

    proof fn lemma_parse_wire(bits: Seq<bool>, cursor: nat, record: Self) {
        let t = bits_of(record.parameters_type as nat, 8);
        let h = bits_of(record.head as nat, 16);
        let x = bits_of(record.x as nat, 32);
        let y = bits_of(record.y as nat, 32);
        let z = bits_of(record.z as nat, 32);
        let at = cursor as int;
        lemma2_to64();
        lemma_bits_of_len(record.parameters_type as nat, 8);
        lemma_bits_of_len(record.head as nat, 16);
        lemma_bits_of_len(record.x as nat, 32);
        lemma_bits_of_len(record.y as nat, 32);
        lemma_bits_of_len(record.z as nat, 32);
        lemma_holds_concat(bits, at, t + h + x + y, z);
        lemma_holds_concat(bits, at, t + h + x, y);
        lemma_holds_concat(bits, at, t + h, x);
        lemma_holds_concat(bits, at, t, h);
        lemma_read_fixed_wire(bits, cursor, 8, record.parameters_type as nat);
        lemma_read_fixed_wire(bits, cursor + 8, 16, record.head as nat);
        lemma_read_fixed_wire(bits, cursor + 24, 32, record.x as nat);
        lemma_read_fixed_wire(bits, cursor + 56, 32, record.y as nat);
        lemma_read_fixed_wire(bits, cursor + 88, 32, record.z as nat);
    }
}

/// An attached part: whether it is detached, the station it hangs on, its
/// kind and the type of the part.
#[derive(Clone, Copy, Debug, PartialEq, Eq)]
pub struct CdisAttachedPart {
    pub detached: bool,
    pub attachment_id: u16,
    pub parameter_type: u32,
    pub attached_part_type: EntityType,
}

/// An articulated part: a change counter, the part it is attached to, the
/// metric (5 bits) and class of the articulation, and the value as a 32-bit
/// pattern.
#[derive(Clone, Copy, Debug, PartialEq, Eq, Structural)]
pub struct CdisArticulatedPart {
    pub change_indicator: u8,
    pub attachment_id: u16,
    pub type_metric: u8,
    pub type_class: u16,
    pub parameter_value: u32,
}

/// A variable parameter: one of a closed set of shapes, told apart on the
/// wire by a three-bit designator that precedes the payload.
#[derive(Clone, Copy, Debug, PartialEq, Eq)]
pub enum CdisVariableParameter {
    ArticulatedPart(CdisArticulatedPart),
    AttachedPart(CdisAttachedPart),
}

/// The designator of an articulated part.
pub const ARTICULATED_PART_DESIGNATOR: u8 = 0;

/// The designator of an attached part.
pub const ATTACHED_PART_DESIGNATOR: u8 = 1;

impl Same for CdisAttachedPart {
    fn same(&self, other: &Self) -> (same: bool) {
        self.detached == other.detached && self.attachment_id == other.attachment_id
            && self.parameter_type == other.parameter_type && self.attached_part_type.same(
            &other.attached_part_type,
        )
    }
}

impl Same for CdisArticulatedPart {
    fn same(&self, other: &Self) -> (same: bool) {
        self.change_indicator == other.change_indicator && self.attachment_id
            == other.attachment_id && self.type_metric == other.type_metric && self.type_class
            == other.type_class && self.parameter_value == other.parameter_value
    }
}

impl Same for CdisVariableParameter {
    fn same(&self, other: &Self) -> (same: bool) {
        match (self, other) {
            (
                CdisVariableParameter::ArticulatedPart(a),
                CdisVariableParameter::ArticulatedPart(b),
            ) => a.same(b),
            (CdisVariableParameter::AttachedPart(a), CdisVariableParameter::AttachedPart(b)) => {
                a.same(b)
            },
            _ => false,
        }
    }
}

impl CdisAttachedPart {
    /// The fixed-width fields at the head of the wire form.
    pub open spec fn head_bits(&self) -> Seq<bool> {
        bits_of(if self.detached { 1nat } else { 0nat }, 1) + bits_of(self.attachment_id as nat, 16)
            + bits_of(self.parameter_type as nat, 32)
    }
}

impl SerializeCdis for CdisAttachedPart {
    open spec fn max_bits() -> nat {
        202
    }

    open spec fn wf(&self) -> bool {
        self.attached_part_type.wf()
    }

    open spec fn wire_bits(&self) -> Seq<bool> {
        self.head_bits() + self.attached_part_type.wire_bits()
    }

    fn is_valid(&self) -> (valid: bool) {
        self.attached_part_type.is_valid()
    }

    fn bit_length(&self) -> (n: usize)
        ensures
            n <= 202,
    {
        proof {
            lemma_bits_of_len(if self.detached { 1nat } else { 0nat }, 1);
            lemma_bits_of_len(self.attachment_id as nat, 16);
            lemma_bits_of_len(self.parameter_type as nat, 32);
        }
        49 + self.attached_part_type.bit_length()
    }

    fn serialize(&self, buf: &mut BitBuffer, cursor: usize) -> (next: usize) {
        let ghost d = bits_of(if self.detached { 1nat } else { 0nat }, 1);
        let ghost a = bits_of(self.attachment_id as nat, 16);
        let ghost p = bits_of(self.parameter_type as nat, 32);
        let ghost t = self.attached_part_type.wire_bits();
        proof {
            lemma2_to64();
            lemma_bits_of_len(if self.detached { 1nat } else { 0nat }, 1);
            lemma_bits_of_len(self.attachment_id as nat, 16);
            lemma_bits_of_len(self.parameter_type as nat, 32);
            lemma_overwrite_concat(old(buf)@, cursor as int, d, a);
            lemma_overwrite_concat(old(buf)@, cursor as int, d + a, p);
            lemma_overwrite_concat(old(buf)@, cursor as int, d + a + p, t);
        }
        let flag: u64 = if self.detached {
            1
        } else {
            0
        };
        let next = buf.put(cursor, 1, flag);
        let next = buf.put(next, 16, self.attachment_id as u64);
        let next = buf.put(next, 32, self.parameter_type as u64);
        self.attached_part_type.serialize(buf, next)
    }
}

impl ParseCdis for CdisAttachedPart {
    open spec fn spec_parse(bits: Seq<bool>, cursor: nat) -> Result<(Self, nat), CdisError> {
        match spec_read_fixed(bits, cursor, 1) {
            Err(e) => Err(e),
            Ok((detached, c1)) => match spec_read_fixed(bits, c1, 16) {
                Err(e) => Err(e),
                Ok((attachment_id, c2)) => match spec_read_fixed(bits, c2, 32) {
                    Err(e) => Err(e),
                    Ok((parameter_type, c3)) => match EntityType::spec_parse(bits, c3) {
                        Err(e) => Err(e),
                        Ok((attached_part_type, c4)) => Ok(
                            (
                                CdisAttachedPart {
                                    detached: detached == 1,
                                    attachment_id: attachment_id as u16,
                                    parameter_type: parameter_type as u32,
                                    attached_part_type,
                                },
                                c4,
                            ),
                        ),
                    },
                },
            },
        }
    }

    fn parse(buf: &BitBuffer, cursor: usize) -> (r: Result<(Self, usize), CdisError>) {
        proof {
            lemma2_to64();
        }
        let (detached, next) = read_fixed(buf, cursor, 1)?;
        let (attachment_id, next) = read_fixed(buf, next, 16)?;
        let (parameter_type, next) = read_fixed(buf, next, 32)?;
        let (attached_part_type, next) = EntityType::parse(buf, next)?;
        Ok(
            (
                CdisAttachedPart {
                    detached: detached == 1,
                    attachment_id: attachment_id as u16,
                    parameter_type: parameter_type as u32,
                    attached_part_type,
                },
                next,
            ),
        )
    }

    proof fn lemma_parse_wire(bits: Seq<bool>, cursor: nat, record: Self) {
        let flag = if record.detached { 1nat } else { 0nat };
        let d = bits_of(flag, 1);
        let a = bits_of(record.attachment_id as nat, 16);
        let p = bits_of(record.parameter_type as nat, 32);
        let t = record.attached_part_type.wire_bits();
        let at = cursor as int;
        lemma2_to64();
        lemma_bits_of_len(flag, 1);
        lemma_bits_of_len(record.attachment_id as nat, 16);
        lemma_bits_of_len(record.parameter_type as nat, 32);
        lemma_holds_concat(bits, at, d + a + p, t);
        lemma_holds_concat(bits, at, d + a, p);
        lemma_holds_concat(bits, at, d, a);
        lemma_read_fixed_wire(bits, cursor, 1, flag);
        lemma_read_fixed_wire(bits, cursor + 1, 16, record.attachment_id as nat);
        lemma_read_fixed_wire(bits, cursor + 17, 32, record.parameter_type as nat);
        EntityType::lemma_parse_wire(bits, cursor + 49, record.attached_part_type);
    }
}

impl SerializeCdis for CdisArticulatedPart {
    open spec fn max_bits() -> nat {
        77
    }

    open spec fn wf(&self) -> bool {
        self.type_metric < 32
    }

    open spec fn wire_bits(&self) -> Seq<bool> {
        bits_of(self.change_indicator as nat, 8) + bits_of(self.attachment_id as nat, 16) + bits_of(
            self.type_metric as nat,
            5,
        ) + bits_of(self.type_class as nat, 16) + bits_of(self.parameter_value as nat, 32)
    }

    fn is_valid(&self) -> (valid: bool) {
        self.type_metric < 32
    }

    fn bit_length(&self) -> (n: usize)
        ensures
            n == 77,
    {
        proof {
            lemma_bits_of_len(self.change_indicator as nat, 8);
            lemma_bits_of_len(self.attachment_id as nat, 16);
            lemma_bits_of_len(self.type_metric as nat, 5);
            lemma_bits_of_len(self.type_class as nat, 16);
            lemma_bits_of_len(self.parameter_value as nat, 32);
        }
        77
    }

    fn serialize(&self, buf: &mut BitBuffer, cursor: usize) -> (next: usize) {
        let ghost c = bits_of(self.change_indicator as nat, 8);
        let ghost a = bits_of(self.attachment_id as nat, 16);
        let ghost m = bits_of(self.type_metric as nat, 5);
        let ghost k = bits_of(self.type_class as nat, 16);
        let ghost v = bits_of(self.parameter_value as nat, 32);
        proof {
            lemma2_to64();
            lemma_bits_of_len(self.change_indicator as nat, 8);
            lemma_bits_of_len(self.attachment_id as nat, 16);
            lemma_bits_of_len(self.type_metric as nat, 5);
            lemma_bits_of_len(self.type_class as nat, 16);
            lemma_bits_of_len(self.parameter_value as nat, 32);
            lemma_overwrite_concat(old(buf)@, cursor as int, c, a);
            lemma_overwrite_concat(old(buf)@, cursor as int, c + a, m);
            lemma_overwrite_concat(old(buf)@, cursor as int, c + a + m, k);
            lemma_overwrite_concat(old(buf)@, cursor as int, c + a + m + k, v);
        }
        let next = buf.put(cursor, 8, self.change_indicator as u64);
        let next = buf.put(next, 16, self.attachment_id as u64);
        let next = buf.put(next, 5, self.type_metric as u64);
        let next = buf.put(next, 16, self.type_class as u64);
        buf.put(next, 32, self.parameter_value as u64)
    }
}

impl ParseCdis for CdisArticulatedPart {
    open spec fn spec_parse(bits: Seq<bool>, cursor: nat) -> Result<(Self, nat), CdisError> {
        match spec_read_fixed(bits, cursor, 8) {
            Err(e) => Err(e),
            Ok((change_indicator, c1)) => match spec_read_fixed(bits, c1, 16) {
                Err(e) => Err(e),
                Ok((attachment_id, c2)) => match spec_read_fixed(bits, c2, 5) {
                    Err(e) => Err(e),
                    Ok((type_metric, c3)) => match spec_read_fixed(bits, c3, 16) {
                        Err(e) => Err(e),
                        Ok((type_class, c4)) => match spec_read_fixed(bits, c4, 32) {
                            Err(e) => Err(e),
                            Ok((parameter_value, c5)) => Ok(
                                (
                                    CdisArticulatedPart {
                                        change_indicator: change_indicator as u8,
                                        attachment_id: attachment_id as u16,
                                        type_metric: type_metric as u8,
                                        type_class: type_class as u16,
                                        parameter_value: parameter_value as u32,
                                    },
                                    c5,
                                ),
                            ),
                        },
                    },
                },
            },
        }
    }

    fn parse(buf: &BitBuffer, cursor: usize) -> (r: Result<(Self, usize), CdisError>) {
        proof {
            lemma2_to64();
        }
        let (change_indicator, next) = read_fixed(buf, cursor, 8)?;
        let (attachment_id, next) = read_fixed(buf, next, 16)?;
        let (type_metric, next) = read_fixed(buf, next, 5)?;
        let (type_class, next) = read_fixed(buf, next, 16)?;
        let (parameter_value, next) = read_fixed(buf, next, 32)?;
        Ok(
            (
                CdisArticulatedPart {
                    change_indicator: change_indicator as u8,
                    attachment_id: attachment_id as u16,
                    type_metric: type_metric as u8,
                    type_class: type_class as u16,
                    parameter_value: parameter_value as u32,
                },
                next,
            ),
        )
    }

    proof fn lemma_parse_wire(bits: Seq<bool>, cursor: nat, record: Self) {
        let c = bits_of(record.change_indicator as nat, 8);
        let a = bits_of(record.attachment_id as nat, 16);
        let m = bits_of(record.type_metric as nat, 5);
        let k = bits_of(record.type_class as nat, 16);
        let v = bits_of(record.parameter_value as nat, 32);
        let at = cursor as int;
        lemma2_to64();
        lemma_bits_of_len(record.change_indicator as nat, 8);
        lemma_bits_of_len(record.attachment_id as nat, 16);
        lemma_bits_of_len(record.type_metric as nat, 5);
        lemma_bits_of_len(record.type_class as nat, 16);
        lemma_bits_of_len(record.parameter_value as nat, 32);
        lemma_holds_concat(bits, at, c + a + m + k, v);
        lemma_holds_concat(bits, at, c + a + m, k);
        lemma_holds_concat(bits, at, c + a, m);
        lemma_holds_concat(bits, at, c, a);
        lemma_read_fixed_wire(bits, cursor, 8, record.change_indicator as nat);
        lemma_read_fixed_wire(bits, cursor + 8, 16, record.attachment_id as nat);
        lemma_read_fixed_wire(bits, cursor + 24, 5, record.type_metric as nat);
        lemma_read_fixed_wire(bits, cursor + 29, 16, record.type_class as nat);
        lemma_read_fixed_wire(bits, cursor + 45, 32, record.parameter_value as nat);
    }
}

impl CdisVariableParameter {
    /// The designator that announces the shape on the wire.
    pub open spec fn spec_designator(&self) -> nat {
        match self {
            CdisVariableParameter::ArticulatedPart(_) => ARTICULATED_PART_DESIGNATOR as nat,
            CdisVariableParameter::AttachedPart(_) => ATTACHED_PART_DESIGNATOR as nat,
        }
    }

    /// The wire form of the payload, without the designator.
    pub open spec fn payload_bits(&self) -> Seq<bool> {
        match self {
            CdisVariableParameter::ArticulatedPart(part) => part.wire_bits(),
            CdisVariableParameter::AttachedPart(part) => part.wire_bits(),
        }
    }
}

impl SerializeCdis for CdisVariableParameter {
    open spec fn max_bits() -> nat {
        205
    }

    open spec fn wf(&self) -> bool {
        match self {
            CdisVariableParameter::ArticulatedPart(part) => part.wf(),
            CdisVariableParameter::AttachedPart(part) => part.wf(),
        }
    }

    open spec fn wire_bits(&self) -> Seq<bool> {
        bits_of(self.spec_designator(), 3) + self.payload_bits()
    }

    fn is_valid(&self) -> (valid: bool) {
        match self {
            CdisVariableParameter::ArticulatedPart(part) => part.is_valid(),
            CdisVariableParameter::AttachedPart(part) => part.is_valid(),
        }
    }

    fn bit_length(&self) -> (n: usize)
        ensures
            n <= 205,
    {
        proof {
            lemma_bits_of_len(self.spec_designator(), 3);
        }
        match self {
            CdisVariableParameter::ArticulatedPart(part) => 3 + part.bit_length(),
            CdisVariableParameter::AttachedPart(part) => 3 + part.bit_length(),
        }
    }

    fn serialize(&self, buf: &mut BitBuffer, cursor: usize) -> (next: usize) {
        proof {
            lemma2_to64();
            lemma_bits_of_len(self.spec_designator(), 3);
            lemma_overwrite_concat(
                old(buf)@,
                cursor as int,
                bits_of(self.spec_designator(), 3),
                self.payload_bits(),
            );
        }
        match self {
            CdisVariableParameter::ArticulatedPart(part) => {
                let next = buf.put(cursor, 3, ARTICULATED_PART_DESIGNATOR as u64);
                part.serialize(buf, next)
            },
            CdisVariableParameter::AttachedPart(part) => {
                let next = buf.put(cursor, 3, ATTACHED_PART_DESIGNATOR as u64);
                part.serialize(buf, next)
            },
        }
    }
}

impl ParseCdis for CdisVariableParameter {
    open spec fn spec_parse(bits: Seq<bool>, cursor: nat) -> Result<(Self, nat), CdisError> {
        match spec_read_fixed(bits, cursor, 3) {
            Err(e) => Err(e),
            Ok((designator, c1)) => if designator == ARTICULATED_PART_DESIGNATOR {
                match CdisArticulatedPart::spec_parse(bits, c1) {
                    Err(e) => Err(e),
                    Ok((part, c2)) => Ok((CdisVariableParameter::ArticulatedPart(part), c2)),
                }
            } else if designator == ATTACHED_PART_DESIGNATOR {
                match CdisAttachedPart::spec_parse(bits, c1) {
                    Err(e) => Err(e),
                    Ok((part, c2)) => Ok((CdisVariableParameter::AttachedPart(part), c2)),
                }
            } else {
                Err(CdisError::UnknownDiscriminant)
            },
        }
    }

    fn parse(buf: &BitBuffer, cursor: usize) -> (r: Result<(Self, usize), CdisError>) {
        let (designator, next) = read_fixed(buf, cursor, 3)?;
        if designator == ARTICULATED_PART_DESIGNATOR as u64 {
            let (part, next) = CdisArticulatedPart::parse(buf, next)?;
            Ok((CdisVariableParameter::ArticulatedPart(part), next))
        } else if designator == ATTACHED_PART_DESIGNATOR as u64 {
            let (part, next) = CdisAttachedPart::parse(buf, next)?;
            Ok((CdisVariableParameter::AttachedPart(part), next))
        } else {
            Err(CdisError::UnknownDiscriminant)
        }
    }

    proof fn lemma_parse_wire(bits: Seq<bool>, cursor: nat, record: Self) {
        lemma2_to64();
        lemma_bits_of_len(record.spec_designator(), 3);
        lemma_holds_concat(
            bits,
            cursor as int,
            bits_of(record.spec_designator(), 3),
            record.payload_bits(),
        );
        lemma_read_fixed_wire(bits, cursor, 3, record.spec_designator());
        match record {
            CdisVariableParameter::ArticulatedPart(part) => {
                CdisArticulatedPart::lemma_parse_wire(bits, cursor + 3, part);
            },
            CdisVariableParameter::AttachedPart(part) => {
                CdisAttachedPart::lemma_parse_wire(bits, cursor + 3, part);
            },
        }
    }
}

/// The marking of an entity: up to 15 character codes, each of five or of six bits.
#[derive(Clone, Debug, PartialEq, Eq)]
pub struct CdisEntityMarking {
    pub six_bit: bool,
    pub codes: Vec<u8>,
}

/// A marking as a mathematical value.
pub struct CdisEntityMarkingView {
    pub six_bit: bool,
    pub codes: Seq<u8>,
}

impl View for CdisEntityMarking {
    type V = CdisEntityMarkingView;

    open spec fn view(&self) -> CdisEntityMarkingView {
        CdisEntityMarkingView { six_bit: self.six_bit, codes: self.codes@ }
    }
}

/// The wire form of a run of character codes of `width` bits each.
pub open spec fn codes_bits(codes: Seq<u8>, width: nat) -> Seq<bool>
    decreases codes.len(),
{
    if codes.len() == 0 {
        Seq::empty()
    } else {
        codes_bits(codes.drop_last(), width) + bits_of(codes.last() as nat, width)
    }
}

/// The `count` character codes of `width` bits each found at `cursor`.
pub open spec fn spec_read_codes(bits: Seq<bool>, cursor: nat, count: nat, width: nat) -> Result<
    (Seq<u8>, nat),
    CdisError,
>
    decreases count,
{
    if count == 0 {
        Ok((Seq::empty(), cursor))
    } else {
        match spec_read_codes(bits, cursor, (count - 1) as nat, width) {
            Err(e) => Err(e),
            Ok((codes, mid)) => match spec_read_fixed(bits, mid, width) {
                Err(e) => Err(e),
                Ok((code, next)) => Ok((codes.push(code as u8), next)),
            },
        }
    }
}

/// A run of character codes takes `width` bits per code.
pub proof fn lemma_codes_bits_len(codes: Seq<u8>, width: nat)
    ensures
        codes_bits(codes, width).len() == codes.len() * width,
    decreases codes.len(),
{
    if codes.len() > 0 {
        lemma_codes_bits_len(codes.drop_last(), width);
        lemma_bits_of_len(codes.last() as nat, width);
        assert((codes.len() - 1) * width + width == codes.len() * width) by (nonlinear_arith);
    } else {
        assert(0 * width == 0) by (nonlinear_arith);
    }
}

/// Once a run of codes fails at some length, it fails the same way at every greater length.
pub proof fn lemma_read_codes_error(bits: Seq<bool>, cursor: nat, short: nat, long: nat, width: nat)
    requires
        short <= long,
        spec_read_codes(bits, cursor, short, width) is Err,
    ensures
        spec_read_codes(bits, cursor, long, width) == spec_read_codes(bits, cursor, short, width),
    decreases long,
{
    if short < long {
        lemma_read_codes_error(bits, cursor, short, (long - 1) as nat, width);
    }
}

/// A run of character codes is found wherever its wire form stands.
pub proof fn lemma_read_codes_wire(bits: Seq<bool>, cursor: nat, codes: Seq<u8>, width: nat)
    requires
        1 <= width <= 8,
        forall|i: int| 0 <= i < codes.len() ==> (#[trigger] codes[i] as nat) < vstd::arithmetic::power2::pow2(width),
        holds_at(bits, cursor as int, codes_bits(codes, width)),
    ensures
        spec_read_codes(bits, cursor, codes.len(), width) == Ok::<(Seq<u8>, nat), CdisError>(
            (codes, cursor + codes_bits(codes, width).len()),
        ),
    decreases codes.len(),
{
    if codes.len() > 0 {
        let front = codes.drop_last();
        lemma_holds_concat(
            bits,
            cursor as int,
            codes_bits(front, width),
            bits_of(codes.last() as nat, width),
        );
        lemma_read_codes_wire(bits, cursor, front, width);
        lemma_bits_of_len(codes.last() as nat, width);
        lemma_read_fixed_wire(
            bits,
            cursor + codes_bits(front, width).len(),
            width,
            codes.last() as nat,
        );
        assert(front.push(codes.last()) =~= codes);
        assert(front.len() == (codes.len() - 1) as nat);
    } else {
        assert(codes =~= Seq::empty());
    }
}

impl CdisEntityMarkingView {
    /// The number of bits of one character code.
    pub open spec fn char_width(&self) -> nat {
        if self.six_bit {
            6
        } else {
            5
        }
    }

    /// At most 15 codes, each within the range of the character size.
    pub open spec fn wf(&self) -> bool {
        &&& self.codes.len() <= 15
        &&& forall|i: int|
            0 <= i < self.codes.len() ==> (#[trigger] self.codes[i]) < (if self.six_bit {
                64u8
            } else {
                32u8
            })
    }

    /// The wire form: the number of characters in four bits, the size of a
    /// character code in one bit, then the codes.
    pub open spec fn wire_bits(&self) -> Seq<bool> {
        bits_of(self.codes.len(), 4) + bits_of(if self.six_bit { 1nat } else { 0nat }, 1)
            + codes_bits(self.codes, self.char_width())
    }

    /// What stands at `cursor` of `bits` when a marking is read there.
    pub open spec fn spec_parse(bits: Seq<bool>, cursor: nat) -> Result<
        (CdisEntityMarkingView, nat),
        CdisError,
    > {
        match spec_read_fixed(bits, cursor, 4) {
            Err(e) => Err(e),
            Ok((count, c1)) => match spec_read_fixed(bits, c1, 1) {
                Err(e) => Err(e),
                Ok((six, c2)) => match spec_read_codes(
                    bits,
                    c2,
                    count,
                    if six == 1 { 6nat } else { 5nat },
                ) {
                    Err(e) => Err(e),
                    Ok((codes, c3)) => Ok((CdisEntityMarkingView { six_bit: six == 1, codes }, c3)),
                },
            },
        }
    }

    /// Parsing finds a well-formed marking wherever its wire form stands.
    pub proof fn lemma_parse_wire(bits: Seq<bool>, cursor: nat, marking: CdisEntityMarkingView)
        requires
            marking.wf(),
            holds_at(bits, cursor as int, marking.wire_bits()),
        ensures
            Self::spec_parse(bits, cursor) == Ok::<(CdisEntityMarkingView, nat), CdisError>(
                (marking, cursor + marking.wire_bits().len()),
            ),
    {
        let six = if marking.six_bit { 1nat } else { 0nat };
        let n = bits_of(marking.codes.len(), 4);
        let s = bits_of(six, 1);
        let c = codes_bits(marking.codes, marking.char_width());
        lemma2_to64();
        lemma_bits_of_len(marking.codes.len(), 4);
        lemma_bits_of_len(six, 1);
        lemma_holds_concat(bits, cursor as int, n + s, c);
        lemma_holds_concat(bits, cursor as int, n, s);
        lemma_read_fixed_wire(bits, cursor, 4, marking.codes.len());
        lemma_read_fixed_wire(bits, cursor + 4, 1, six);
        lemma_read_codes_wire(bits, cursor + 5, marking.codes, marking.char_width());
    }
}

impl CdisEntityMarking {
    pub fn new(six_bit: bool, codes: Vec<u8>) -> (m: CdisEntityMarking)
        ensures
            m@ == (CdisEntityMarkingView { six_bit, codes: codes@ }),
    {
        CdisEntityMarking { six_bit, codes }
    }

    /// A copy with the same character size and codes.
    pub fn duplicate(&self) -> (copy: CdisEntityMarking)
        ensures
            copy@ == self@,
    {
        let mut codes: Vec<u8> = Vec::new();
        let mut i: usize = 0;
        while i < self.codes.len()
            invariant
                i <= self.codes@.len(),
                codes@ == self.codes@.take(i as int),
            decreases self.codes@.len() - i,
        {
            codes.push(self.codes[i]);
            i = i + 1;
            assert(codes@ =~= self.codes@.take(i as int));
        }
        assert(codes@ =~= self.codes@);
        CdisEntityMarking { six_bit: self.six_bit, codes }
    }

    /// Whether two markings have the same character size and the same codes.
    pub fn same(&self, other: &Self) -> (same: bool)
        ensures
            same == (self@ == other@),
    {
        if self.six_bit != other.six_bit || self.codes.len() != other.codes.len() {
            return false;
        }
        let mut i: usize = 0;
        while i < self.codes.len()
            invariant
                i <= self.codes@.len(),
                self.codes@.len() == other.codes@.len(),
                self.codes@.take(i as int) == other.codes@.take(i as int),
            decreases self.codes@.len() - i,
        {
            if self.codes[i] != other.codes[i] {
                assert(self.codes@[i as int] != other.codes@[i as int]);
                return false;
            }
            i = i + 1;
            assert(self.codes@.take(i as int) =~= self.codes@.take(i - 1).push(
                self.codes@[i - 1],
            ));
            assert(other.codes@.take(i as int) =~= other.codes@.take(i - 1).push(
                other.codes@[i - 1],
            ));
        }
        assert(self.codes@.take(i as int) =~= self.codes@);
        assert(other.codes@.take(i as int) =~= other.codes@);
        true
    }

    /// Reads a marking at `cursor`.
    #[verifier::loop_isolation(false)]
    pub fn parse(buf: &BitBuffer, cursor: usize) -> (r: Result<(CdisEntityMarking, usize), CdisError>)
        ensures
            match CdisEntityMarkingView::spec_parse(buf@, cursor as nat) {
                Ok((marking, next)) => {
                    &&& r is Ok
                    &&& r->Ok_0.0@ == marking
                    &&& r->Ok_0.1 == next
                    &&& marking.wf()
                    &&& cursor <= next <= buf@.len()
                },
                Err(e) => r == Err::<(CdisEntityMarking, usize), CdisError>(e),
            },
    {
        proof {
            lemma2_to64();
        }
        let (count, next) = read_fixed(buf, cursor, 4)?;
        let (six, next) = read_fixed(buf, next, 1)?;
        let six_bit = six == 1;
        let width: usize = if six_bit {
            6
        } else {
            5
        };
        let count = count as usize;
        let start = next;
        let mut codes: Vec<u8> = Vec::new();
        let mut at = next;
        let mut i: usize = 0;
        while i < count
            invariant
                i <= count <= 15,
                5 <= width <= 6,
                width == if six_bit { 6nat } else { 5nat },
                start <= at <= buf@.len(),
                spec_read_codes(buf@, start as nat, i as nat, width as nat) == Ok::<
                    (Seq<u8>, nat),
                    CdisError,
                >((codes@, at as nat)),
                codes@.len() == i,
                forall|j: int|
                    0 <= j < codes@.len() ==> (#[trigger] codes@[j]) < (if six_bit {
                        64u8
                    } else {
                        32u8
                    }),
            decreases count - i,
        {
            match read_fixed(buf, at, width) {
                Ok((code, next)) => {
                    proof {
                        lemma2_to64();
                    }
                    codes.push(code as u8);
                    at = next;
                },
                Err(e) => {
                    proof {
                        assert(spec_read_codes(buf@, start as nat, (i + 1) as nat, width as nat)
                            == Err::<(Seq<u8>, nat), CdisError>(e));
                        lemma_read_codes_error(
                            buf@,
                            start as nat,
                            (i + 1) as nat,
                            count as nat,
                            width as nat,
                        );
                    }
                    return Err(e);
                },
            }
            i = i + 1;
        }
        Ok((CdisEntityMarking { six_bit, codes }, at))
    }
}

impl SerializeCdis for CdisEntityMarking {
    open spec fn max_bits() -> nat {
        95
    }

    open spec fn wf(&self) -> bool {
        self@.wf()
    }

    open spec fn wire_bits(&self) -> Seq<bool> {
        self@.wire_bits()
    }

    fn is_valid(&self) -> (valid: bool) {
        if self.codes.len() > 15 {
            return false;
        }
        let limit: u8 = if self.six_bit {
            64
        } else {
            32
        };
        let mut i: usize = 0;
        while i < self.codes.len()
            invariant
                i <= self.codes@.len(),
                limit == if self.six_bit { 64u8 } else { 32u8 },
                forall|j: int| 0 <= j < i ==> (#[trigger] self.codes@[j]) < limit,
            decreases self.codes@.len() - i,
        {
            if self.codes[i] >= limit {
                return false;
            }
            i = i + 1;
        }
        true
    }

    fn bit_length(&self) -> (n: usize)
        ensures
            n <= 95,
    {
        proof {
            lemma_bits_of_len(self.codes@.len(), 4);
            lemma_bits_of_len(if self.six_bit { 1nat } else { 0nat }, 1);
            lemma_codes_bits_len(self.codes@, self@.char_width());
        }
        if self.six_bit {
            5 + self.codes.len() * 6
        } else {
            5 + self.codes.len() * 5
        }
    }

    fn serialize(&self, buf: &mut BitBuffer, cursor: usize) -> (next: usize) {
        let ghost six = if self.six_bit { 1nat } else { 0nat };
        let ghost head = bits_of(self.codes@.len(), 4) + bits_of(six, 1);
        let ghost width = self@.char_width();
        proof {
            lemma2_to64();
            lemma_bits_of_len(self.codes@.len(), 4);
            lemma_bits_of_len(six, 1);
            lemma_codes_bits_len(self.codes@, width);
            lemma_overwrite_concat(
                old(buf)@,
                cursor as int,
                bits_of(self.codes@.len(), 4),
                bits_of(six, 1),
            );
        }
        let next = buf.put(cursor, 4, self.codes.len() as u64);
        let flag: u64 = if self.six_bit {
            1
        } else {
            0
        };
        let next = buf.put(next, 1, flag);
        let w: usize = if self.six_bit {
            6
        } else {
            5
        };
        let mut at = next;
        let mut i: usize = 0;
        proof {
            assert(head + codes_bits(self.codes@.take(0), width) =~= head);
        }
        while i < self.codes.len()
            invariant
                i <= self.codes@.len() <= 15,
                self@.wf(),
                w == width,
                width == self@.char_width(),
                head.len() == 5,
                cursor + 5 + self.codes@.len() * width <= old(buf)@.len(),
                buf@.len() == old(buf)@.len(),
                at == cursor + 5 + i * width,
                buf@ == overwrite(
                    old(buf)@,
                    cursor as int,
                    head + codes_bits(self.codes@.take(i as int), width),
                ),
            decreases self.codes@.len() - i,
        {
            proof {
                lemma2_to64();
                let done = self.codes@.take(i as int);
                assert(self.codes@.take(i + 1).drop_last() =~= done);
                lemma_codes_bits_len(done, width);
                lemma_bits_of_len(self.codes@[i as int] as nat, width);
                assert((i + 1) * width <= self.codes@.len() * width) by (nonlinear_arith)
                    requires
                        i + 1 <= self.codes@.len(),
                ;
                assert((i + 1) * width == i * width + width) by (nonlinear_arith);
                lemma_overwrite_concat(
                    old(buf)@,
                    cursor as int,
                    head + codes_bits(done, width),
                    bits_of(self.codes@[i as int] as nat, width),
                );
                assert(head + codes_bits(self.codes@.take(i + 1), width) =~= head + codes_bits(
                    done,
                    width,
                ) + bits_of(self.codes@[i as int] as nat, width));
            }
            at = buf.put(at, w, self.codes[i] as u64);
            i = i + 1;
        }
        proof {
            assert(self.codes@.take(i as int) =~= self.codes@);
        }
        at
    }
}

} // verus!
