use flour::bxcad::serde_impl::pos_xy;
use flour::bxcad::serde_impl::pos_xy::PosXYVisitor;
use flour::bxcad::serde_impl::use_variation;
use flour::bxcad::serde_impl::use_variation::UseVariationVisitor;
use flour::bxcad::serde_impl::variation_num;
use flour::bxcad::serde_impl::variation_num::VariationNumVisitor;
use flour::bxcad::serde_impl::{Editable, Invalid};

fn pair(first: Option<i16>, second: Option<i16>, remaining: Option<usize>) -> Editable {
    Editable::Pair { first, second, remaining }
}

#[test]
fn position_is_shown_as_x_and_y() {
    assert_eq!(pos_xy::serialize(&0x0001_0002), [1, 2]);
    assert_eq!(pos_xy::serialize(&0xffff_8000), [-1, i16::MIN]);
    assert_eq!(pos_xy::serialize(&0), [0, 0]);
}

#[test]
fn position_from_a_sequence() {
    assert_eq!(pos_xy::deserialize(pair(Some(1), Some(2), None)), Ok(0x0001_0002));
    assert_eq!(pos_xy::deserialize(pair(Some(-1), Some(i16::MIN), Some(0))), Ok(0xffff_8000));
    assert_eq!(PosXYVisitor.visit_seq(Some(3), Some(-4), None), Ok(0x0003_fffc));
}

#[test]
fn position_from_a_sequence_of_another_length() {
    assert_eq!(pos_xy::deserialize(pair(None, None, None)), Err(Invalid::Length(0)));
    assert_eq!(pos_xy::deserialize(pair(Some(1), None, None)), Err(Invalid::Length(1)));
    assert_eq!(pos_xy::deserialize(pair(Some(1), Some(2), Some(1))), Err(Invalid::Length(3)));
    assert_eq!(pos_xy::deserialize(pair(Some(1), Some(2), Some(7))), Err(Invalid::Length(9)));
    assert_eq!(
        pos_xy::deserialize(pair(Some(1), Some(2), Some(usize::MAX))),
        Err(Invalid::Length(usize::MAX))
    );
}

#[test]
fn position_from_the_number_of_older_versions() {
    assert_eq!(pos_xy::deserialize(Editable::U32(0xdead_beef)), Ok(0xdead_beef));
    assert_eq!(pos_xy::deserialize(Editable::I32(-1)), Ok(0xffff_ffff));
    assert_eq!(pos_xy::deserialize(Editable::U64(0xffff_ffff)), Ok(0xffff_ffff));
    assert_eq!(pos_xy::deserialize(Editable::I64(-2147483648)), Ok(0x8000_0000));
    assert_eq!(pos_xy::deserialize(Editable::I64(2147483647)), Ok(0x7fff_ffff));
    assert_eq!(PosXYVisitor.visit_u32(5), Ok(5));
    assert_eq!(PosXYVisitor.visit_i32(-2), Ok(0xffff_fffe));
    assert_eq!(PosXYVisitor.visit_u64(65536), Ok(65536));
    assert_eq!(PosXYVisitor.visit_i64(-65536), Ok(0xffff_0000));
}

#[test]
fn position_from_a_number_that_does_not_fit() {
    assert_eq!(
        pos_xy::deserialize(Editable::U64(0x1_0000_0000)),
        Err(Invalid::Unsigned(0x1_0000_0000))
    );
    assert_eq!(
        pos_xy::deserialize(Editable::I64(2147483648)),
        Err(Invalid::Signed(2147483648))
    );
    assert_eq!(
        pos_xy::deserialize(Editable::I64(-2147483649)),
        Err(Invalid::Signed(-2147483649))
    );
    assert_eq!(pos_xy::deserialize(Editable::Bool(true)), Err(Invalid::Bool(true)));
}

#[test]
fn position_shown_and_read_back() {
    for word in [0u32, 1, 0xffff, 0x1_0000, 0x8000_7fff, 0xdead_beef, u32::MAX] {
        let [x, y] = pos_xy::serialize(&word);
        assert_eq!(pos_xy::deserialize(pair(Some(x), Some(y), None)), Ok(word));
    }
}

#[test]
fn flag_is_the_most_significant_byte() {
    assert_eq!(use_variation::serialize(&0), false);
    assert_eq!(use_variation::serialize(&0x0100_0000), true);
    assert_eq!(use_variation::serialize(&0xff00_0000), true);
    assert_eq!(use_variation::serialize(&0x00ff_ffff), false);
    assert_eq!(use_variation::serialize(&1), false);
}

#[test]
fn flag_from_a_truth_value() {
    assert_eq!(use_variation::deserialize(Editable::Bool(true)), Ok(0x0100_0000));
    assert_eq!(use_variation::deserialize(Editable::Bool(false)), Ok(0));
    assert_eq!(UseVariationVisitor.visit_bool(true), Ok(0x0100_0000));
    for flag in [true, false] {
        let word = use_variation::deserialize(Editable::Bool(flag)).unwrap();
        assert_eq!(use_variation::serialize(&word), flag);
    }
}

#[test]
fn flag_from_the_number_of_older_versions() {
    assert_eq!(use_variation::deserialize(Editable::U32(0x0100_0000)), Ok(0x0100_0000));
    assert_eq!(use_variation::deserialize(Editable::I32(-1)), Ok(0xffff_ffff));
    assert_eq!(use_variation::deserialize(Editable::U64(16777216)), Ok(0x0100_0000));
    assert_eq!(use_variation::deserialize(Editable::I64(-1)), Ok(0xffff_ffff));
    assert_eq!(UseVariationVisitor.visit_u32(1), Ok(1));
    assert_eq!(UseVariationVisitor.visit_i32(1), Ok(1));
    assert_eq!(UseVariationVisitor.visit_u64(2), Ok(2));
    assert_eq!(UseVariationVisitor.visit_i64(3), Ok(3));
}

#[test]
fn flag_from_what_is_refused() {
    assert_eq!(
        use_variation::deserialize(Editable::U64(u64::MAX)),
        Err(Invalid::Unsigned(u64::MAX))
    );
    assert_eq!(
        use_variation::deserialize(Editable::I64(i64::MIN)),
        Err(Invalid::Signed(i64::MIN))
    );
    assert_eq!(
        use_variation::deserialize(pair(Some(1), Some(2), None)),
        Err(Invalid::Sequence)
    );
}

#[test]
fn variation_is_the_upper_half() {
    assert_eq!(variation_num::serialize(&0x0002_0000), 2);
    assert_eq!(variation_num::serialize(&0xffff_1234), 0xffff);
    assert_eq!(variation_num::serialize(&0x0000_ffff), 0);
}

#[test]
fn variation_from_a_number() {
    assert_eq!(variation_num::deserialize(Editable::U64(2)), Ok(2));
    assert_eq!(variation_num::deserialize(Editable::U64(0xffff)), Ok(0xffff));
    assert_eq!(variation_num::deserialize(Editable::U64(0x1_0000)), Ok(1));
    assert_eq!(variation_num::deserialize(Editable::U64(0x0002_0000)), Ok(2));
    assert_eq!(variation_num::deserialize(Editable::U64(0xffff_ffff)), Ok(0xffff));
    // only the low 32 bits count
    assert_eq!(variation_num::deserialize(Editable::U64(0x5_0003_0000)), Ok(3));
    assert_eq!(variation_num::deserialize(Editable::U32(0x0004_0000)), Ok(4));
    assert_eq!(variation_num::deserialize(Editable::U32(7)), Ok(7));
    assert_eq!(variation_num::deserialize(Editable::I64(-1)), Ok(0xffff));
    assert_eq!(variation_num::deserialize(Editable::I32(-1)), Ok(0xffff));
    assert_eq!(variation_num::deserialize(Editable::I32(9)), Ok(9));
    assert_eq!(VariationNumVisitor.visit_u64(0x0008_0000), Ok(8));
    assert_eq!(VariationNumVisitor.visit_i64(8), Ok(8));
}

#[test]
fn variation_from_what_is_refused() {
    assert_eq!(variation_num::deserialize(Editable::Bool(false)), Err(Invalid::Bool(false)));
    assert_eq!(
        variation_num::deserialize(pair(None, None, None)),
        Err(Invalid::Sequence)
    );
}
