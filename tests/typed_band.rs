use typed_rasterband::float_bits::{Float32Bits, Float64Bits};
use typed_rasterband::typed_rasterband::{
    BandHandle, TypeError, TypedRasterBand, GDT_BYTE, GDT_FLOAT32, GDT_FLOAT64, GDT_INT16,
    GDT_INT32, GDT_UINT16, GDT_UINT32,
};

fn band(band_type: u32, no_data: Option<f64>) -> BandHandle {
    BandHandle {
        band_type,
        no_data: no_data.map(|v| Float64Bits { bits: v.to_bits() }),
    }
}

#[test]
fn typed_rasterband_u8() {
    let band = band(GDT_BYTE, None);
    let typed_band = TypedRasterBand::<u8>::from_rasterband(&band).unwrap();

    assert_eq!(typed_band.band_type(), GDT_BYTE);
}

#[test]
fn typed_rasterband_u16() {
    let band = band(GDT_UINT16, None);
    let typed_band = TypedRasterBand::<u16>::from_rasterband(&band).unwrap();

    assert_eq!(typed_band.band_type(), GDT_UINT16);
}

#[test]
fn incorrect_type() {
    let band = band(GDT_UINT16, None);
    let typed_band = TypedRasterBand::<u8>::from_rasterband(&band);

    assert!(typed_band.is_err());
}

#[test]
fn typed_rasterband_u16_nodata() {
    let band = band(GDT_UINT16, Some(42.0));
    let typed_band = TypedRasterBand::<u16>::from_rasterband(&band).unwrap();

    assert_eq!(typed_band.no_data_value(), Some(42));
}

#[test]
fn every_type_accepts_its_own_tag() {
    let b = band(GDT_BYTE, None);
    assert_eq!(TypedRasterBand::<u8>::from_rasterband(&b).unwrap().band_type(), GDT_BYTE);
    let b = band(GDT_UINT16, None);
    assert_eq!(TypedRasterBand::<u16>::from_rasterband(&b).unwrap().band_type(), GDT_UINT16);
    let b = band(GDT_INT16, None);
    assert_eq!(TypedRasterBand::<i16>::from_rasterband(&b).unwrap().band_type(), GDT_INT16);
    let b = band(GDT_UINT32, None);
    assert_eq!(TypedRasterBand::<u32>::from_rasterband(&b).unwrap().band_type(), GDT_UINT32);
    let b = band(GDT_INT32, None);
    assert_eq!(TypedRasterBand::<i32>::from_rasterband(&b).unwrap().band_type(), GDT_INT32);
    let b = band(GDT_FLOAT32, None);
    let v = TypedRasterBand::<Float32Bits>::from_rasterband(&b).unwrap();
    assert_eq!(v.band_type(), GDT_FLOAT32);
    let b = band(GDT_FLOAT64, None);
    let v = TypedRasterBand::<Float64Bits>::from_rasterband(&b).unwrap();
    assert_eq!(v.band_type(), GDT_FLOAT64);
}

#[test]
fn every_other_tag_is_refused() {
    let tags = [GDT_BYTE, GDT_UINT16, GDT_INT16, GDT_UINT32, GDT_INT32, GDT_FLOAT32, GDT_FLOAT64];
    for &tag in tags.iter() {
        let b = band(tag, None);
        assert_eq!(TypedRasterBand::<u8>::from_rasterband(&b).is_ok(), tag == GDT_BYTE);
        assert_eq!(TypedRasterBand::<u16>::from_rasterband(&b).is_ok(), tag == GDT_UINT16);
        assert_eq!(TypedRasterBand::<i16>::from_rasterband(&b).is_ok(), tag == GDT_INT16);
        assert_eq!(TypedRasterBand::<u32>::from_rasterband(&b).is_ok(), tag == GDT_UINT32);
        assert_eq!(TypedRasterBand::<i32>::from_rasterband(&b).is_ok(), tag == GDT_INT32);
        assert_eq!(
            TypedRasterBand::<Float32Bits>::from_rasterband(&b).is_ok(),
            tag == GDT_FLOAT32
        );
        assert_eq!(
            TypedRasterBand::<Float64Bits>::from_rasterband(&b).is_ok(),
            tag == GDT_FLOAT64
        );
    }
}

#[test]
fn unknown_tag_is_refused() {
    let b = band(0, None);
    assert!(TypedRasterBand::<u8>::from_rasterband(&b).is_err());
    assert!(TypedRasterBand::<Float64Bits>::from_rasterband(&b).is_err());
}

#[test]
fn mismatch_error_has_its_message() {
    let b = band(GDT_FLOAT64, None);
    let err: TypeError = TypedRasterBand::<i32>::from_rasterband(&b).err().unwrap();
    assert_eq!(err.description(), "band type doesn't match type specified in caller");
}

#[test]
fn no_data_forty_two_in_every_integer_type() {
    let b = band(GDT_BYTE, Some(42.0));
    assert_eq!(TypedRasterBand::<u8>::from_rasterband(&b).unwrap().no_data_value(), Some(42));
    let b = band(GDT_UINT16, Some(42.0));
    assert_eq!(TypedRasterBand::<u16>::from_rasterband(&b).unwrap().no_data_value(), Some(42));
    let b = band(GDT_INT16, Some(42.0));
    assert_eq!(TypedRasterBand::<i16>::from_rasterband(&b).unwrap().no_data_value(), Some(42));
    let b = band(GDT_UINT32, Some(42.0));
    assert_eq!(TypedRasterBand::<u32>::from_rasterband(&b).unwrap().no_data_value(), Some(42));
    let b = band(GDT_INT32, Some(42.0));
    assert_eq!(TypedRasterBand::<i32>::from_rasterband(&b).unwrap().no_data_value(), Some(42));
}

#[test]
fn absent_no_data_is_none() {
    let b = band(GDT_BYTE, None);
    assert_eq!(TypedRasterBand::<u8>::from_rasterband(&b).unwrap().no_data_value(), None);
    let b = band(GDT_INT32, None);
    assert_eq!(TypedRasterBand::<i32>::from_rasterband(&b).unwrap().no_data_value(), None);
    let b = band(GDT_FLOAT64, None);
    let v = TypedRasterBand::<Float64Bits>::from_rasterband(&b).unwrap();
    assert_eq!(v.no_data_value(), None);
}

#[test]
fn zero_no_data_is_some_zero() {
    let b = band(GDT_UINT16, Some(0.0));
    assert_eq!(TypedRasterBand::<u16>::from_rasterband(&b).unwrap().no_data_value(), Some(0));
}

#[test]
fn double_no_data_is_kept() {
    let b = band(GDT_FLOAT64, Some(-9999.5));
    let v = TypedRasterBand::<Float64Bits>::from_rasterband(&b).unwrap();
    assert_eq!(v.no_data_value(), Some(Float64Bits { bits: (-9999.5f64).to_bits() }));
}

#[test]
fn negative_no_data_in_signed_band() {
    let b = band(GDT_INT16, Some(-32768.0));
    assert_eq!(TypedRasterBand::<i16>::from_rasterband(&b).unwrap().no_data_value(), Some(-32768));
}

#[test]
fn single_no_data_is_rounded() {
    let b = band(GDT_FLOAT32, Some(-9999.0));
    let v = TypedRasterBand::<Float32Bits>::from_rasterband(&b).unwrap();
    assert_eq!(v.no_data_value(), Some(Float32Bits { bits: (-9999.0f32).to_bits() }));
    let b = band(GDT_FLOAT32, Some(0.1));
    let v = TypedRasterBand::<Float32Bits>::from_rasterband(&b).unwrap();
    assert_eq!(v.no_data_value(), Some(Float32Bits { bits: (0.1f32).to_bits() }));
}
