//! Interpolation compatibility checking across designspace masters: every
//! master must have the glyph, with as many contours, as many points per
//! contour, and compatible point types at each position.

use vstd::prelude::*;
use vstd::string::StringExecFns;
use crate::decimal::{decimal_nat, push_decimal_u64};

verus! {

/// The type of a point of a UFO contour.
#[derive(Debug, Clone, Copy, PartialEq, Eq, Structural)]
pub enum PointType {
    Move,
    Line,
    OffCurve,
    Curve,
    QCurve,
}

#[derive(Debug, Clone, Copy, PartialEq, Eq, Structural)]
pub enum CompatErrorKind {
    MissingGlyph,
    ContourCountMismatch,
    PointCountMismatch,
    PointTypeMismatch,
}

/// A single interpolation compatibility error. `contour_index` and
/// `point_index` locate the reference point that the error concerns, and
/// `position` is where that point is (for a point-count mismatch, the first
/// point of the contour, when it has one).
#[derive(Debug, Clone)]
pub struct CompatError<P> {
    pub kind: CompatErrorKind,
    pub master_name: String,
    pub message: String,
    pub contour_index: Option<usize>,
    pub point_index: Option<usize>,
    pub position: Option<P>,
    pub expected: Option<String>,
    pub actual: Option<String>,
}

/// A compatibility error as a value.
pub ghost struct CompatErrorView<P> {
    pub kind: CompatErrorKind,
    pub master_name: Seq<char>,
    pub message: Seq<char>,
    pub contour_index: Option<nat>,
    pub point_index: Option<nat>,
    pub position: Option<P>,
    pub expected: Option<Seq<char>>,
    pub actual: Option<Seq<char>>,
}

pub open spec fn opt_string_view(o: Option<String>) -> Option<Seq<char>> {
    match o {
        Some(s) => Some(s@),
        None => None,
    }
}

pub open spec fn opt_usize_view(o: Option<usize>) -> Option<nat> {
    match o {
        Some(v) => Some(v as nat),
        None => None,
    }
}

impl<P> View for CompatError<P> {
    type V = CompatErrorView<P>;

    open spec fn view(&self) -> CompatErrorView<P> {
        CompatErrorView {
            kind: self.kind,
            master_name: self.master_name@,
            message: self.message@,
            contour_index: opt_usize_view(self.contour_index),
            point_index: opt_usize_view(self.point_index),
            position: self.position,
            expected: opt_string_view(self.expected),
            actual: opt_string_view(self.actual),
        }
    }
}

/// The name a point type is reported by.
pub open spec fn point_type_label(t: PointType) -> Seq<char> {
    match t {
        PointType::Move => "Move"@,
        PointType::Line => "Line"@,
        PointType::OffCurve => "OffCurve"@,
        PointType::Curve => "Curve"@,
        PointType::QCurve => "QCurve"@,
    }
}

/// Point types interpolate when they are equal, or when one is a line and
/// the other a curve.
pub open spec fn types_compatible(a: PointType, b: PointType) -> bool {
    a == b || (a == PointType::Curve && b == PointType::Line) || (a == PointType::Line && b
        == PointType::Curve)
}

/// The error of a master that lacks the glyph.
pub open spec fn missing_error<P>(glyph: Seq<char>, master: Seq<char>) -> CompatErrorView<P> {
    CompatErrorView {
        kind: CompatErrorKind::MissingGlyph,
        master_name: master,
        message: "Glyph '"@ + glyph + "' missing from '"@ + master + "'"@,
        contour_index: None,
        point_index: None,
        position: None,
        expected: None,
        actual: None,
    }
}

/// The error of a master whose glyph has another number of contours.
pub open spec fn contour_count_error<P>(master: Seq<char>, expected: nat, actual: nat) -> CompatErrorView<P> {
    CompatErrorView {
        kind: CompatErrorKind::ContourCountMismatch,
        master_name: master,
        message: "Contour count: expected "@ + decimal_nat(expected) + ", got "@ + decimal_nat(actual)
            + " in '"@ + master + "'"@,
        contour_index: None,
        point_index: None,
        position: None,
        expected: Some(decimal_nat(expected)),
        actual: Some(decimal_nat(actual)),
    }
}

/// The error of a contour with another number of points; `position` is
/// where the reference contour's first point is.
pub open spec fn point_count_error<P>(
    master: Seq<char>,
    contour: nat,
    expected: nat,
    actual: nat,
    position: Option<P>,
) -> CompatErrorView<P> {
    CompatErrorView {
        kind: CompatErrorKind::PointCountMismatch,
        master_name: master,
        message: "Contour "@ + decimal_nat(contour) + ": expected "@ + decimal_nat(expected)
            + " points, got "@ + decimal_nat(actual) + " in '"@ + master + "'"@,
        contour_index: Some(contour),
        point_index: None,
        position,
        expected: Some(decimal_nat(expected)),
        actual: Some(decimal_nat(actual)),
    }
}

/// The error of a point whose type does not interpolate with the reference
/// point's; `position` is where the reference point is.
pub open spec fn point_type_error<P>(
    master: Seq<char>,
    contour: nat,
    point: nat,
    expected: PointType,
    actual: PointType,
    position: P,
) -> CompatErrorView<P> {
    CompatErrorView {
        kind: CompatErrorKind::PointTypeMismatch,
        master_name: master,
        message: "Contour "@ + decimal_nat(contour) + ", point "@ + decimal_nat(point)
            + ": expected "@ + point_type_label(expected) + ", got "@ + point_type_label(actual) + " in '"@ + master
            + "'"@,
        contour_index: Some(contour),
        point_index: Some(point),
        position: Some(position),
        expected: Some(point_type_label(expected)),
        actual: Some(point_type_label(actual)),
    }
}

/// The type errors among the first `upto` points of contour `contour`; a
/// reference point is its type and position.
pub open spec fn point_errors<P>(
    master: Seq<char>,
    contour: nat,
    reference: Seq<(PointType, P)>,
    other: Seq<PointType>,
    upto: nat,
) -> Seq<CompatErrorView<P>>
    decreases upto,
{
    if upto == 0 {
        seq![]
    } else {
        let i = (upto - 1) as nat;
        point_errors(master, contour, reference, other, i) + if types_compatible(
            reference[i as int].0,
            other[i as int],
        ) {
            seq![]
        } else {
            seq![
                point_type_error(
                    master,
                    contour,
                    i,
                    reference[i as int].0,
                    other[i as int],
                    reference[i as int].1,
                ),
            ]
        }
    }
}

/// Where the first point of a reference contour is, when it has one.
pub open spec fn first_position<P>(reference: Seq<(PointType, P)>) -> Option<P> {
    if reference.len() > 0 {
        Some(reference[0].1)
    } else {
        None
    }
}

/// The errors of contour `contour`.
pub open spec fn contour_errors<P>(
    master: Seq<char>,
    contour: nat,
    reference: Seq<(PointType, P)>,
    other: Seq<PointType>,
) -> Seq<CompatErrorView<P>> {
    if reference.len() != other.len() {
        seq![point_count_error(master, contour, reference.len(), other.len(), first_position(reference))]
    } else {
        point_errors(master, contour, reference, other, reference.len())
    }
}

/// The errors among the first `upto` contours, whose counts agree.
pub open spec fn contours_errors<P>(
    master: Seq<char>,
    reference: Seq<Seq<(PointType, P)>>,
    other: Seq<Seq<PointType>>,
    upto: nat,
) -> Seq<CompatErrorView<P>>
    decreases upto,
{
    if upto == 0 {
        seq![]
    } else {
        let i = (upto - 1) as nat;
        contours_errors(master, reference, other, i) + contour_errors(
            master,
            i,
            reference[i as int],
            other[i as int],
        )
    }
}

/// The errors one master contributes.
pub open spec fn master_errors<P>(
    glyph: Seq<char>,
    reference: Seq<Seq<(PointType, P)>>,
    master: Seq<char>,
    other: Option<Seq<Seq<PointType>>>,
) -> Seq<CompatErrorView<P>> {
    match other {
        None => seq![missing_error(glyph, master)],
        Some(other) => if reference.len() != other.len() {
            seq![contour_count_error(master, reference.len(), other.len())]
        } else {
            contours_errors(master, reference, other, reference.len())
        },
    }
}

/// A glyph's contours as sequences of point types.
pub open spec fn contours_view(c: Seq<Vec<PointType>>) -> Seq<Seq<PointType>> {
    c.map_values(|v: Vec<PointType>| v@)
}

/// The reference glyph's contours as sequences of point types and positions.
pub open spec fn reference_view<P>(c: Seq<Vec<(PointType, P)>>) -> Seq<Seq<(PointType, P)>> {
    c.map_values(|v: Vec<(PointType, P)>| v@)
}

/// The point types of a reference contour.
pub open spec fn types_of<P>(contour: Seq<(PointType, P)>) -> Seq<PointType> {
    contour.map_values(|p: (PointType, P)| p.0)
}

/// A master as its name and, when it has the glyph, its contours.
pub open spec fn master_view(m: (String, Option<Vec<Vec<PointType>>>)) -> (Seq<char>, Option<Seq<Seq<PointType>>>) {
    (
        m.0@,
        match m.1 {
            Some(c) => Some(contours_view(c@)),
            None => None,
        },
    )
}

/// The errors of the first `upto` masters, in order.
pub open spec fn compat_errors<P>(
    glyph: Seq<char>,
    reference: Seq<Seq<(PointType, P)>>,
    masters: Seq<(Seq<char>, Option<Seq<Seq<PointType>>>)>,
    upto: nat,
) -> Seq<CompatErrorView<P>>
    decreases upto,
{
    if upto == 0 {
        seq![]
    } else {
        let i = (upto - 1) as int;
        compat_errors(glyph, reference, masters, (upto - 1) as nat) + master_errors(
            glyph,
            reference,
            masters[i].0,
            masters[i].1,
        )
    }
}

/// Errors as values.
pub open spec fn errors_view<P>(v: Seq<CompatError<P>>) -> Seq<CompatErrorView<P>> {
    v.map_values(|e: CompatError<P>| e@)
}

proof fn lemma_errors_view_push<P>(v: Seq<CompatError<P>>, e: CompatError<P>)
    ensures
        errors_view(v.push(e)) == errors_view(v).push(e@),
{
    assert(errors_view(v.push(e)) =~= errors_view(v).push(e@));
}

/// Whether two point types interpolate.
pub fn point_types_compatible(a: &PointType, b: &PointType) -> (r: bool)
    ensures
        r == types_compatible(*a, *b),
{
    match (a, b) {
        (PointType::Curve, PointType::Line) | (PointType::Line, PointType::Curve) => true,
        _ => *a == *b,
    }
}

fn push_point_type_label(s: &mut String, t: PointType)
    ensures
        final(s)@ == old(s)@ + point_type_label(t),
{
    match t {
        PointType::Move => s.append("Move"),
        PointType::Line => s.append("Line"),
        PointType::OffCurve => s.append("OffCurve"),
        PointType::Curve => s.append("Curve"),
        PointType::QCurve => s.append("QCurve"),
    }
}

fn point_type_label_string(t: PointType) -> (s: String)
    ensures
        s@ == point_type_label(t),
{
    let mut s = String::new();
    push_point_type_label(&mut s, t);
    assert(s@ =~= point_type_label(t));
    s
}

fn decimal_string(n: usize) -> (s: String)
    ensures
        s@ == decimal_nat(n as nat),
{
    let mut s = String::new();
    push_decimal_u64(&mut s, n as u64);
    assert(s@ =~= decimal_nat(n as nat));
    s
}

fn missing_glyph_error<P>(glyph_name: &str, master_name: &String) -> (e: CompatError<P>)
    ensures
        e@ == missing_error::<P>(glyph_name@, master_name@),
{
    let mut message = String::new();
    message.append("Glyph '");
    message.append(glyph_name);
    message.append("' missing from '");
    message.append(master_name.as_str());
    message.append("'");
    assert(message@ =~= missing_error::<P>(glyph_name@, master_name@).message);
    CompatError {
        kind: CompatErrorKind::MissingGlyph,
        master_name: master_name.clone(),
        message,
        contour_index: None,
        point_index: None,
        position: None,
        expected: None,
        actual: None,
    }
}

fn contour_count_mismatch<P>(master_name: &String, expected: usize, actual: usize) -> (e: CompatError<P>)
    ensures
        e@ == contour_count_error::<P>(master_name@, expected as nat, actual as nat),
{
    let mut message = String::new();
    message.append("Contour count: expected ");
    push_decimal_u64(&mut message, expected as u64);
    message.append(", got ");
    push_decimal_u64(&mut message, actual as u64);
    message.append(" in '");
    message.append(master_name.as_str());
    message.append("'");
    assert(message@ =~= contour_count_error::<P>(master_name@, expected as nat, actual as nat).message);
    CompatError {
        kind: CompatErrorKind::ContourCountMismatch,
        master_name: master_name.clone(),
        message,
        contour_index: None,
        point_index: None,
        position: None,
        expected: Some(decimal_string(expected)),
        actual: Some(decimal_string(actual)),
    }
}

fn point_count_mismatch<P>(
    master_name: &String,
    contour: usize,
    expected: usize,
    actual: usize,
    position: Option<P>,
) -> (e: CompatError<P>)
    ensures
        e@ == point_count_error(master_name@, contour as nat, expected as nat, actual as nat, position),
{
    let mut message = String::new();
    message.append("Contour ");
    push_decimal_u64(&mut message, contour as u64);
    message.append(": expected ");
    push_decimal_u64(&mut message, expected as u64);
    message.append(" points, got ");
    push_decimal_u64(&mut message, actual as u64);
    message.append(" in '");
    message.append(master_name.as_str());
    message.append("'");
    assert(message@ =~= point_count_error(master_name@, contour as nat, expected as nat, actual as nat, position).message);
    CompatError {
        kind: CompatErrorKind::PointCountMismatch,
        master_name: master_name.clone(),
        message,
        contour_index: Some(contour),
        point_index: None,
        position,
        expected: Some(decimal_string(expected)),
        actual: Some(decimal_string(actual)),
    }
}

fn point_type_mismatch<P>(
    master_name: &String,
    contour: usize,
    point: usize,
    expected: PointType,
    actual: PointType,
    position: P,
) -> (e: CompatError<P>)
    ensures
        e@ == point_type_error(master_name@, contour as nat, point as nat, expected, actual, position),
{
    let mut message = String::new();
    message.append("Contour ");
    push_decimal_u64(&mut message, contour as u64);
    message.append(", point ");
    push_decimal_u64(&mut message, point as u64);
    message.append(": expected ");
    push_point_type_label(&mut message, expected);
    message.append(", got ");
    push_point_type_label(&mut message, actual);
    message.append(" in '");
    message.append(master_name.as_str());
    message.append("'");
    assert(message@ =~= point_type_error(master_name@, contour as nat, point as nat, expected, actual, position).message);
    CompatError {
        kind: CompatErrorKind::PointTypeMismatch,
        master_name: master_name.clone(),
        message,
        contour_index: Some(contour),
        point_index: Some(point),
        position: Some(position),
        expected: Some(point_type_label_string(expected)),
        actual: Some(point_type_label_string(actual)),
    }
}

fn check_contour_points<P: Copy>(
    master_name: &String,
    contour: usize,
    reference: &Vec<(PointType, P)>,
    other: &Vec<PointType>,
    errors: &mut Vec<CompatError<P>>,
)
    requires
        reference@.len() == other@.len(),
    ensures
        errors_view(final(errors)@) == errors_view(old(errors)@) + point_errors(
            master_name@,
            contour as nat,
            reference@,
            other@,
            reference@.len(),
        ),
{
    let ghost start = errors_view(errors@);
    let mut i: usize = 0;
    while i < reference.len()
        invariant
            i <= reference@.len() == other@.len(),
            errors_view(errors@) == start + point_errors(
                master_name@,
                contour as nat,
                reference@,
                other@,
                i as nat,
            ),
        decreases reference@.len() - i,
    {
        let ghost before = errors@;
        if !point_types_compatible(&reference[i].0, &other[i]) {
            let e = point_type_mismatch(master_name, contour, i, reference[i].0, other[i], reference[i].1);
            errors.push(e);
            proof {
                lemma_errors_view_push(before, e);
            }
        }
        assert(errors_view(errors@) =~= start + point_errors(
            master_name@,
            contour as nat,
            reference@,
            other@,
            (i + 1) as nat,
        ));
        i = i + 1;
    }
}

fn check_master<P: Copy>(
    glyph_name: &str,
    reference: &[Vec<(PointType, P)>],
    master: &(String, Option<Vec<Vec<PointType>>>),
    errors: &mut Vec<CompatError<P>>,
)
    ensures
        errors_view(final(errors)@) == errors_view(old(errors)@) + master_errors(
            glyph_name@,
            reference_view(reference@),
            master_view(*master).0,
            master_view(*master).1,
        ),
{
    let ghost start = errors_view(errors@);
    let ghost ref_view = reference_view(reference@);
    let (master_name, other_glyph) = master;
    match other_glyph {
        None => {
            let ghost prev = errors@;
            let e = missing_glyph_error(glyph_name, master_name);
            errors.push(e);
            proof {
                lemma_errors_view_push(prev, e);
            }
            assert(errors_view(errors@) =~= start + master_errors(
                glyph_name@,
                ref_view,
                master_view(*master).0,
                master_view(*master).1,
            ));
        },
        Some(other) => {
            let ghost other_view = contours_view(other@);
            if reference.len() != other.len() {
                let ghost prev = errors@;
                let e = contour_count_mismatch(master_name, reference.len(), other.len());
                errors.push(e);
                proof {
                    lemma_errors_view_push(prev, e);
                }
                assert(errors_view(errors@) =~= start + master_errors(
                    glyph_name@,
                    ref_view,
                    master_view(*master).0,
                    master_view(*master).1,
                ));
                return;
            }
            let mut c: usize = 0;
            while c < reference.len()
                invariant
                    c <= reference@.len() == other@.len(),
                    ref_view == reference_view(reference@),
                    other_view == contours_view(other@),
                    errors_view(errors@) == start + contours_errors(
                        master_name@,
                        ref_view,
                        other_view,
                        c as nat,
                    ),
                decreases reference@.len() - c,
            {
                let ghost before = errors_view(errors@);
                let ref_contour = &reference[c];
                let other_contour = &other[c];
                assert(ref_view[c as int] == ref_contour@);
                assert(other_view[c as int] == other_contour@);
                if ref_contour.len() != other_contour.len() {
                    let ghost prev = errors@;
                    let position = if ref_contour.len() > 0 {
                        Some(ref_contour[0].1)
                    } else {
                        None
                    };
                    let e = point_count_mismatch(master_name, c, ref_contour.len(), other_contour.len(), position);
                    errors.push(e);
                    proof {
                        lemma_errors_view_push(prev, e);
                    }
                } else {
                    check_contour_points(master_name, c, ref_contour, other_contour, errors);
                }
                assert(errors_view(errors@) =~= start + contours_errors(
                    master_name@,
                    ref_view,
                    other_view,
                    (c + 1) as nat,
                ));
                c = c + 1;
            }
        },
    }
}

/// Check interpolation compatibility of a glyph across other masters.
///
/// `reference` is the glyph's contours in the active master, each point as
/// its type and position; each other master, named, holds the glyph's
/// contours (their point types) or `None` when it lacks the glyph. Masters
/// are compared against the reference in order: a missing glyph or a
/// contour-count mismatch yields one error for the master; otherwise each
/// contour yields a point-count error, or one error per incompatible point
/// type, located at the reference point.
pub fn check_compat<P: Copy>(
    glyph_name: &str,
    reference: &[Vec<(PointType, P)>],
    masters: &[(String, Option<Vec<Vec<PointType>>>)],
) -> (r: Vec<CompatError<P>>)
    ensures
        errors_view(r@) == compat_errors(
            glyph_name@,
            reference_view(reference@),
            masters@.map_values(|m: (String, Option<Vec<Vec<PointType>>>)| master_view(m)),
            masters@.len(),
        ),
{
    let ghost ms = masters@.map_values(|m: (String, Option<Vec<Vec<PointType>>>)| master_view(m));
    let mut errors: Vec<CompatError<P>> = Vec::new();
    let mut i: usize = 0;
    assert(errors_view(errors@) =~= Seq::<CompatErrorView<P>>::empty());
    while i < masters.len()
        invariant
            i <= masters@.len(),
            ms == masters@.map_values(|m: (String, Option<Vec<Vec<PointType>>>)| master_view(m)),
            errors_view(errors@) == compat_errors(glyph_name@, reference_view(reference@), ms, i as nat),
        decreases masters@.len() - i,
    {
        assert(ms[i as int] == master_view(masters@[i as int]));
        check_master(glyph_name, reference, &masters[i], &mut errors);
        i = i + 1;
    }
    errors
}

} // verus!

verus! {

proof fn lemma_point_errors_self<P>(master: Seq<char>, contour: nat, pts: Seq<(PointType, P)>, upto: nat)
    requires
        upto <= pts.len(),
    ensures
        point_errors(master, contour, pts, types_of(pts), upto) == Seq::<CompatErrorView<P>>::empty(),
    decreases upto,
{
    if upto > 0 {
        lemma_point_errors_self(master, contour, pts, (upto - 1) as nat);
        assert(types_of(pts)[upto - 1] == pts[upto - 1].0);
        assert(point_errors(master, contour, pts, types_of(pts), upto) =~= Seq::<CompatErrorView<P>>::empty());
    }
}

/// The point types of each reference contour.
pub open spec fn contour_types<P>(contours: Seq<Seq<(PointType, P)>>) -> Seq<Seq<PointType>> {
    contours.map_values(|c: Seq<(PointType, P)>| types_of(c))
}

proof fn lemma_contours_errors_self<P>(master: Seq<char>, contours: Seq<Seq<(PointType, P)>>, upto: nat)
    requires
        upto <= contours.len(),
    ensures
        contours_errors(master, contours, contour_types(contours), upto) == Seq::<CompatErrorView<P>>::empty(),
    decreases upto,
{
    if upto > 0 {
        let i = (upto - 1) as nat;
        lemma_contours_errors_self(master, contours, i);
        lemma_point_errors_self(master, i, contours[i as int], contours[i as int].len());
        assert(contour_types(contours)[i as int] == types_of(contours[i as int]));
        assert(contours_errors(master, contours, contour_types(contours), upto) =~= Seq::<CompatErrorView<P>>::empty());
    }
}

/// A master whose glyph has exactly the reference's contours and point
/// types reports no error.
pub proof fn law_identical_master_is_compatible<P>(
    glyph: Seq<char>,
    reference: Seq<Seq<(PointType, P)>>,
    master: Seq<char>,
)
    ensures
        master_errors(glyph, reference, master, Some(contour_types(reference))) == Seq::<CompatErrorView<P>>::empty(),
{
    lemma_contours_errors_self(master, reference, reference.len());
}

/// A master that lacks the glyph reports exactly one error, of kind
/// `MissingGlyph`, whatever the reference holds.
pub proof fn law_missing_glyph_single_error<P>(glyph: Seq<char>, reference: Seq<Seq<(PointType, P)>>, master: Seq<char>)
    ensures
        master_errors(glyph, reference, master, None).len() == 1,
        master_errors(glyph, reference, master, None)[0].kind == CompatErrorKind::MissingGlyph,
        master_errors(glyph, reference, master, None)[0].position is None,
{
}

/// Line and curve points interpolate with each other, and compatibility
/// of point types is symmetric.
pub proof fn law_point_types_compatible_symmetric(a: PointType, b: PointType)
    ensures
        types_compatible(a, b) == types_compatible(b, a),
        types_compatible(PointType::Line, PointType::Curve),
{
}

} // verus!

verus! {

proof fn lemma_point_errors_where<P>(
    master: Seq<char>,
    contour: nat,
    reference: Seq<(PointType, P)>,
    other: Seq<PointType>,
    upto: nat,
)
    requires
        upto <= reference.len(),
        reference.len() == other.len(),
    ensures
        forall|k: int|
            0 <= k < point_errors(master, contour, reference, other, upto).len() ==> {
                let e = #[trigger] point_errors(master, contour, reference, other, upto)[k];
                &&& e.kind == CompatErrorKind::PointTypeMismatch
                &&& e.contour_index == Some(contour)
                &&& e.point_index matches Some(m) && m < upto && !types_compatible(reference[m as int].0, other[m as int])
            },
        forall|m: nat|
            m < upto && !types_compatible(reference[m as int].0, other[m as int]) ==> exists|k: int|
                0 <= k < point_errors(master, contour, reference, other, upto).len() && (#[trigger] point_errors(
                    master,
                    contour,
                    reference,
                    other,
                    upto,
                )[k]).point_index == Some(m),
    decreases upto,
{
    if upto > 0 {
        let i = (upto - 1) as nat;
        lemma_point_errors_where(master, contour, reference, other, i);
        let before = point_errors(master, contour, reference, other, i);
        let now = point_errors(master, contour, reference, other, upto);
        assert forall|m: nat|
            m < upto && !types_compatible(reference[m as int].0, other[m as int]) implies exists|k: int|
                0 <= k < now.len() && (#[trigger] now[k]).point_index == Some(m) by {
            if m == i {
                assert(now[before.len() as int].point_index == Some(m));
            } else {
                let k = choose|k: int| 0 <= k < before.len() && (#[trigger] before[k]).point_index == Some(m);
                assert(now[k] == before[k]);
            }
        }
        assert forall|k: int| 0 <= k < now.len() implies {
            let e = #[trigger] now[k];
            &&& e.kind == CompatErrorKind::PointTypeMismatch
            &&& e.contour_index == Some(contour)
            &&& e.point_index matches Some(m) && m < upto && !types_compatible(reference[m as int].0, other[m as int])
        } by {
            if k < before.len() {
                assert(now[k] == before[k]);
            }
        }
    }
}

/// In a contour whose point count matches, a point is reported as a type
/// mismatch exactly when the two types differ and are not a line and a
/// curve; in particular an off-curve point never matches an on-curve point.
/// Every error of the contour is such a type mismatch of one of its points.
pub proof fn law_point_type_mismatches_are_reported<P>(
    master: Seq<char>,
    contour: nat,
    reference: Seq<(PointType, P)>,
    other: Seq<PointType>,
    i: int,
)
    requires
        reference.len() == other.len(),
        0 <= i < reference.len(),
    ensures
        ({
            let errors = contour_errors(master, contour, reference, other);
            let a = reference[i].0;
            let b = other[i];
            let reported = exists|k: int| 0 <= k < errors.len() && (#[trigger] errors[k]).point_index == Some(i as nat);
            &&& reported == (a != b && !(a == PointType::Line && b == PointType::Curve) && !(a == PointType::Curve
                && b == PointType::Line))
            &&& (a == PointType::OffCurve) != (b == PointType::OffCurve) ==> reported
            &&& forall|k: int|
                0 <= k < errors.len() ==> (#[trigger] errors[k]).kind == CompatErrorKind::PointTypeMismatch
                    && errors[k].contour_index == Some(contour)
        }),
{
    lemma_point_errors_where(master, contour, reference, other, reference.len());
    let errors = contour_errors(master, contour, reference, other);
    if exists|k: int| 0 <= k < errors.len() && (#[trigger] errors[k]).point_index == Some(i as nat) {
        let k = choose|k: int| 0 <= k < errors.len() && (#[trigger] errors[k]).point_index == Some(i as nat);
        assert(errors[k].point_index matches Some(m) && m == i);
    }
}

} // verus!
