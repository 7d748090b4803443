use crate::convert::GdalFrom;
use crate::float_bits::{Float32Bits, Float64Bits};
use std::marker::PhantomData;
use vstd::prelude::*;

verus! {

// GDAL's runtime element-type ordinals (`GDALDataType`).
/// Eight-bit unsigned integer.
pub const GDT_BYTE: u32 = 1;

/// Sixteen-bit unsigned integer.
pub const GDT_UINT16: u32 = 2;

/// Sixteen-bit signed integer.
pub const GDT_INT16: u32 = 3;

/// Thirty-two-bit unsigned integer.
pub const GDT_UINT32: u32 = 4;

/// Thirty-two-bit signed integer.
pub const GDT_INT32: u32 = 5;

/// Thirty-two-bit floating point.
pub const GDT_FLOAT32: u32 = 6;

/// Sixty-four-bit floating point.
pub const GDT_FLOAT64: u32 = 7;

/// A pixel element type with the runtime tag that stands for it.
pub trait PixelType: Copy {
    spec fn intrinsic_tag() -> u32;

    fn gdal_ordinal() -> (r: u32)
        ensures
            r == Self::intrinsic_tag(),
    ;
}

impl PixelType for u8 {
    open spec fn intrinsic_tag() -> u32 {
        GDT_BYTE
    }

    fn gdal_ordinal() -> (r: u32) {
        GDT_BYTE
    }
}

impl PixelType for u16 {
    open spec fn intrinsic_tag() -> u32 {
        GDT_UINT16
    }

    fn gdal_ordinal() -> (r: u32) {
        GDT_UINT16
    }
}

impl PixelType for i16 {
    open spec fn intrinsic_tag() -> u32 {
        GDT_INT16
    }

    fn gdal_ordinal() -> (r: u32) {
        GDT_INT16
    }
}

impl PixelType for u32 {
    open spec fn intrinsic_tag() -> u32 {
        GDT_UINT32
    }

    fn gdal_ordinal() -> (r: u32) {
        GDT_UINT32
    }
}

impl PixelType for i32 {
    open spec fn intrinsic_tag() -> u32 {
        GDT_INT32
    }

    fn gdal_ordinal() -> (r: u32) {
        GDT_INT32
    }
}

impl PixelType for Float32Bits {
    open spec fn intrinsic_tag() -> u32 {
        GDT_FLOAT32
    }

    fn gdal_ordinal() -> (r: u32) {
        GDT_FLOAT32
    }
}

impl PixelType for Float64Bits {
    open spec fn intrinsic_tag() -> u32 {
        GDT_FLOAT64
    }

    fn gdal_ordinal() -> (r: u32) {
        GDT_FLOAT64
    }
}

/// The pixel types have pairwise distinct tags, so a band of one of them is
/// refused by a view of any other.
pub proof fn lemma_intrinsic_tags_distinct()
    ensures
        u8::intrinsic_tag() != u16::intrinsic_tag(),
        u8::intrinsic_tag() != i16::intrinsic_tag(),
        u8::intrinsic_tag() != u32::intrinsic_tag(),
        u8::intrinsic_tag() != i32::intrinsic_tag(),
        u8::intrinsic_tag() != Float64Bits::intrinsic_tag(),
        u16::intrinsic_tag() != i16::intrinsic_tag(),
        u16::intrinsic_tag() != u32::intrinsic_tag(),
        u16::intrinsic_tag() != i32::intrinsic_tag(),
        u16::intrinsic_tag() != Float64Bits::intrinsic_tag(),
        i16::intrinsic_tag() != u32::intrinsic_tag(),
        i16::intrinsic_tag() != i32::intrinsic_tag(),
        i16::intrinsic_tag() != Float64Bits::intrinsic_tag(),
        u32::intrinsic_tag() != i32::intrinsic_tag(),
        u32::intrinsic_tag() != Float64Bits::intrinsic_tag(),
        i32::intrinsic_tag() != Float64Bits::intrinsic_tag(),
        Float32Bits::intrinsic_tag() != u8::intrinsic_tag(),
        Float32Bits::intrinsic_tag() != u16::intrinsic_tag(),
        Float32Bits::intrinsic_tag() != i16::intrinsic_tag(),
        Float32Bits::intrinsic_tag() != u32::intrinsic_tag(),
        Float32Bits::intrinsic_tag() != i32::intrinsic_tag(),
        Float32Bits::intrinsic_tag() != Float64Bits::intrinsic_tag(),
{
}

/// The view's element type does not match the band's runtime type.
#[derive(Debug, Clone, Copy, PartialEq, Eq)]
pub struct TypeError {}

impl TypeError {
    pub fn description(&self) -> (r: &'static str)
        ensures
            r@ == "band type doesn't match type specified in caller"@,
    {
        proof {
            reveal_strlit("band type doesn't match type specified in caller");
        }
        "band type doesn't match type specified in caller"
    }
}

/// What a band reports of itself: its runtime element-type tag and its
/// optional no-data sentinel, a double.
#[derive(Debug, Clone, Copy, PartialEq, Eq)]
pub struct BandHandle {
    pub band_type: u32,
    pub no_data: Option<Float64Bits>,
}

/// A band whose element type has been checked against `T`.
pub struct TypedRasterBand<'a, T: PixelType> {
    rasterband: &'a BandHandle,
    pixel_type: PhantomData<T>,
}

impl<'a, T: PixelType> TypedRasterBand<'a, T> {
    /// The band that this view reads.
    pub closed spec fn handle(&self) -> BandHandle {
        *self.rasterband
    }

    #[verifier::type_invariant]
    spec fn type_checked(&self) -> bool {
        self.rasterband.band_type == T::intrinsic_tag()
    }

    /// A view of `T` over `rasterband`, or a `TypeError` when the band does
    /// not store `T`.
    pub fn from_rasterband(rasterband: &'a BandHandle) -> (r: Result<
        TypedRasterBand<'a, T>,
        TypeError,
    >)
        ensures
            r is Ok <==> rasterband.band_type == T::intrinsic_tag(),
            r matches Ok(v) ==> v.handle() == *rasterband,
    {
        let bt = rasterband.band_type;
        if T::gdal_ordinal() == bt {
            Ok(TypedRasterBand { rasterband, pixel_type: PhantomData })
        } else {
            Err(TypeError {  })
        }
    }

    /// The band's runtime tag, which is always `T`'s.
    pub fn band_type(&self) -> (r: u32)
        ensures
            r == self.handle().band_type,
            r == T::intrinsic_tag(),
    {
        proof {
            use_type_invariant(self);
        }
        self.rasterband.band_type
    }
}

impl<'a, T: PixelType + GdalFrom<Float64Bits>> TypedRasterBand<'a, T> {
    /// The band's no-data sentinel converted to `T`; `None` when the band has
    /// none.
    pub fn no_data_value(&self) -> (r: Option<T>)
        ensures
            r == match self.handle().no_data {
                Some(b) => Some(T::converted(b)),
                None => None,
            },
    {
        match self.rasterband.no_data {
            Some(b) => Some(T::from(b)),
            None => None,
        }
    }
}

} // verus!
