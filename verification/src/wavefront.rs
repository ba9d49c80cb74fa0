//! Reading the text of a mesh description file with the `wavefront_obj` parser.
//!
//! The parser's result is kept as it is and read through a handful of
//! accessors; everything the rest of the library sees is plain data of
//! [`crate::source`].

use vstd::prelude::*;
use vstd::string::StringSliceAdditionalSpecFns;
use crate::error::{ParseFailure, ParseFailureModel};
use crate::source::{all_well_formed, models, Coordinates, Geometry, Object, ObjectModel, Primitive, VertexKey};

verus! {

#[verifier::external_type_specification]
#[verifier::external_body]
pub struct ExObjSet(wavefront_obj::obj::ObjSet);

/// What `wavefront_obj::obj::parse` makes of a text: the objects it finds,
/// or the place and reason it stops at.
pub uninterp spec fn parse_outcome(text: Seq<char>) -> Result<Seq<ObjectModel>, ParseFailureModel>;

/// The objects that a parsed file holds, in the order of the file, each with
/// its tables and groups in the order of the file. A coordinate is the bit
/// pattern of the parsed double; a corner is the parser's index triple.
pub uninterp spec fn parsed_objects(set: wavefront_obj::obj::ObjSet) -> Seq<ObjectModel>;

/// The ASCII minus sign.
pub const MINUS: u8 = 45;

/// The ASCII digit zero.
pub const ZERO: u8 = 48;

/// The ASCII digit nine.
pub const NINE: u8 = 57;

/// Whether a byte is an ASCII decimal digit.
pub open spec fn is_digit(byte: u8) -> bool {
    ZERO <= byte <= NINE
}

/// The length of the run of zeros that starts at the offset `at`.
pub open spec fn zeros_from(text: Seq<u8>, at: int) -> nat
    decreases text.len() - at,
{
    if 0 <= at < text.len() && text[at] == ZERO {
        1 + zeros_from(text, at + 1)
    } else {
        0
    }
}

/// The length of the run of digits that starts at the offset `at`.
pub open spec fn digits_from(text: Seq<u8>, at: int) -> nat
    decreases text.len() - at,
{
    if 0 <= at < text.len() && is_digit(text[at]) {
        1 + digits_from(text, at + 1)
    } else {
        0
    }
}

/// The number of digits of the greatest `isize`: 19 where `usize` has 64
/// bits, 10 where it has 32. A number with fewer digits is less than a
/// tenth of the greatest `isize` away from zero.
pub open spec fn index_digit_limit() -> nat {
    if usize::BITS == 64 {
        19
    } else {
        10
    }
}

/// Whether a minus sign stands at the offset `at`, followed, after all the
/// zeros that follow it, by as many digits as the greatest `isize` has, or
/// more.
pub open spec fn long_negative_at(text: Seq<u8>, at: int) -> bool {
    &&& 0 <= at < text.len()
    &&& text[at] == MINUS
    &&& digits_from(text, at + 1 + zeros_from(text, at + 1)) >= index_digit_limit()
}

/// The texts that the parser can be given: those without a long negative
/// number.
///
/// The parser turns a negative face index `x` into `max - x`, where `max`
/// is one more than the number of table entries read so far, and does not
/// check the subtraction. It overflows for an `x` whose magnitude comes
/// within `max` of the greatest `isize`. A negative number with fewer
/// digits than the greatest `isize` stays further from it than a text has
/// room for table entries.
pub open spec fn parser_defined_on(text: &str) -> bool {
    forall|at: int| !long_negative_at(text.spec_bytes(), at)
}

/// Calls `wavefront_obj::obj::parse`; an error is handed on as its line
/// number and its message.
///
/// Trusted: on a text without a long negative number the call returns, its
/// one unchecked subtraction staying in range (see [`parser_defined_on`]);
/// the result is a function of the text alone; and on success every
/// index of every corner is valid for the tables of its object, as the
/// parser's documentation of its index types promises (it checks each index
/// against the sizes of the object's tables and turns it into an offset).
#[verifier::external_body]
fn parse_text(text: &str) -> (r: Result<wavefront_obj::obj::ObjSet, ParseFailure>)
    requires
        parser_defined_on(text),
    ensures
        match r {
            Ok(set) => parse_outcome(text@) == Ok::<Seq<ObjectModel>, ParseFailureModel>(parsed_objects(set))
                && all_well_formed(parsed_objects(set)),
            Err(failure) => parse_outcome(text@) == Err::<Seq<ObjectModel>, ParseFailureModel>(failure@),
        },
{
    wavefront_obj::obj::parse(text).map_err(
        |error| ParseFailure { line_number: error.line_number, message: error.message },
    )
}

/// Reads the length of the field `objects` of an `ObjSet`.
///
/// Trusted: [`parsed_objects`] has one entry for each object of the set.
#[verifier::external_body]
fn object_count(set: &wavefront_obj::obj::ObjSet) -> (count: usize)
    ensures
        count == parsed_objects(*set).len(),
{
    set.objects.len()
}

/// Copies the field `name` of an object of the set.
///
/// Trusted: the name of an entry of [`parsed_objects`] is this field.
#[verifier::external_body]
fn object_name(set: &wavefront_obj::obj::ObjSet, object: usize) -> (name: String)
    requires
        object < parsed_objects(*set).len(),
    ensures
        name@ == parsed_objects(*set)[object as int].name,
{
    set.objects[object].name.clone()
}

/// Copies the field `vertices` of an object of the set, each coordinate
/// turned into its bits by `f64::to_bits`.
///
/// Trusted: the positions of an entry of [`parsed_objects`] are this field.
#[verifier::external_body]
fn object_positions(set: &wavefront_obj::obj::ObjSet, object: usize) -> (positions: Vec<Coordinates>)
    requires
        object < parsed_objects(*set).len(),
    ensures
        positions@ == parsed_objects(*set)[object as int].positions,
{
    set.objects[object].vertices.iter().map(
        |v| Coordinates { x: v.x.to_bits(), y: v.y.to_bits(), z: v.z.to_bits() },
    ).collect()
}

/// Copies the field `normals` of an object of the set, each coordinate
/// turned into its bits by `f64::to_bits`.
///
/// Trusted: the normals of an entry of [`parsed_objects`] are this field.
#[verifier::external_body]
fn object_normals(set: &wavefront_obj::obj::ObjSet, object: usize) -> (normals: Vec<Coordinates>)
    requires
        object < parsed_objects(*set).len(),
    ensures
        normals@ == parsed_objects(*set)[object as int].normals,
{
    set.objects[object].normals.iter().map(
        |n| Coordinates { x: n.x.to_bits(), y: n.y.to_bits(), z: n.z.to_bits() },
    ).collect()
}

/// Reads the length of the field `geometry` of an object of the set.
///
/// Trusted: an entry of [`parsed_objects`] has one group for each entry of
/// this field.
#[verifier::external_body]
fn geometry_count(set: &wavefront_obj::obj::ObjSet, object: usize) -> (count: usize)
    requires
        object < parsed_objects(*set).len(),
    ensures
        count == parsed_objects(*set)[object as int].geometry.len(),
{
    set.objects[object].geometry.len()
}

/// Copies the primitives of the field `shapes` of a geometry group, variant
/// by variant and index by index.
///
/// Trusted: a group of an entry of [`parsed_objects`] is the list of these
/// primitives.
#[verifier::external_body]
fn geometry_shapes(set: &wavefront_obj::obj::ObjSet, object: usize, geometry: usize) -> (shapes: Vec<
    Primitive,
>)
    requires
        object < parsed_objects(*set).len(),
        geometry < parsed_objects(*set)[object as int].geometry.len(),
    ensures
        shapes@ == parsed_objects(*set)[object as int].geometry[geometry as int],
{
    let key = |k: wavefront_obj::obj::VTNIndex| VertexKey { position: k.0, texture: k.1, normal: k.2 };
    set.objects[object].geometry[geometry].shapes.iter().map(
        |shape| match shape.primitive {
            wavefront_obj::obj::Primitive::Point(a) => Primitive::Point(key(a)),
            wavefront_obj::obj::Primitive::Line(a, b) => Primitive::Line(key(a), key(b)),
            wavefront_obj::obj::Primitive::Triangle(a, b, c) => Primitive::Triangle(key(a), key(b), key(c)),
        },
    ).collect()
}

/// The offset at which the run of zeros that starts at `from` ends.
fn skip_zeros(text: &[u8], from: usize) -> (end: usize)
    requires
        from <= text.len(),
    ensures
        end == from + zeros_from(text@, from as int),
        end <= text.len(),
{
    let mut end = from;
    while end < text.len() && text[end] == ZERO
        invariant
            from <= end <= text.len(),
            zeros_from(text@, from as int) == (end - from) + zeros_from(text@, end as int),
        decreases text.len() - end,
    {
        end += 1;
    }
    end
}

/// Whether the run of digits that starts at `from` has `limit` digits or more.
fn has_digits(text: &[u8], from: usize, limit: usize) -> (r: bool)
    requires
        from <= text.len(),
    ensures
        r == (digits_from(text@, from as int) >= limit),
{
    let mut end = from;
    let mut count: usize = 0;
    while count < limit && end < text.len() && ZERO <= text[end] && text[end] <= NINE
        invariant
            from <= end <= text.len(),
            count == end - from,
            count <= limit,
            digits_from(text@, from as int) == count + digits_from(text@, end as int),
        decreases text.len() - end,
    {
        end += 1;
        count += 1;
    }
    count >= limit
}

/// Executable form of [`parser_defined_on`]. Reads the text once.
pub fn is_parser_defined_on(text: &str) -> (r: bool)
    ensures
        r == parser_defined_on(text),
{
    let bytes = text.as_bytes();
    let limit: usize = if usize::BITS == 64 {
        19
    } else {
        10
    };
    let mut at: usize = 0;
    while at < bytes.len()
        invariant
            at <= bytes.len(),
            bytes@ == text.spec_bytes(),
            limit == index_digit_limit(),
            forall|before: int| 0 <= before < at ==> !long_negative_at(bytes@, before),
        decreases bytes.len() - at,
    {
        if bytes[at] == MINUS {
            let digits = skip_zeros(bytes, at + 1);
            if has_digits(bytes, digits, limit) {
                assert(long_negative_at(bytes@, at as int));
                return false;
            }
        }
        at += 1;
    }
    true
}

/// Copies one object of a parsed file into plain data.
fn read_object(set: &wavefront_obj::obj::ObjSet, object: usize) -> (copy: Object)
    requires
        object < parsed_objects(*set).len(),
    ensures
        copy@ == parsed_objects(*set)[object as int],
{
    let ghost model = parsed_objects(*set)[object as int];
    let name = object_name(set, object);
    let positions = object_positions(set, object);
    let normals = object_normals(set, object);
    let count = geometry_count(set, object);
    let mut geometry: Vec<Geometry> = Vec::new();
    let mut g: usize = 0;
    while g < count
        invariant
            g <= count,
            count == model.geometry.len(),
            object < parsed_objects(*set).len(),
            model == parsed_objects(*set)[object as int],
            geometry@.len() == g,
            forall|h: int| 0 <= h < g ==> (#[trigger] geometry@[h])@ == model.geometry[h],
        decreases count - g,
    {
        geometry.push(Geometry { shapes: geometry_shapes(set, object, g) });
        g += 1;
    }
    Object { name, positions, normals, geometry }
}

/// Parses the text of a mesh description file.
///
/// The result is what the parser makes of the text, as plain data; the
/// objects of a successful parse are well formed. The text must be one that
/// the parser can be given, see [`parser_defined_on`].
pub fn parse_objects(text: &str) -> (r: Result<Vec<Object>, ParseFailure>)
    requires
        parser_defined_on(text),
    ensures
        match r {
            Ok(objects) => parse_outcome(text@) == Ok::<Seq<ObjectModel>, ParseFailureModel>(models(objects@))
                && all_well_formed(models(objects@)),
            Err(failure) => parse_outcome(text@) == Err::<Seq<ObjectModel>, ParseFailureModel>(failure@),
        },
{
    match parse_text(text) {
        Err(failure) => Err(failure),
        Ok(set) => {
            let count = object_count(&set);
            let mut objects: Vec<Object> = Vec::new();
            let mut o: usize = 0;
            while o < count
                invariant
                    o <= count,
                    count == parsed_objects(set).len(),
                    objects@.len() == o,
                    forall|i: int| 0 <= i < o ==> (#[trigger] objects@[i])@ == parsed_objects(set)[i],
                decreases count - o,
            {
                objects.push(read_object(&set, o));
                o += 1;
            }
            assert(models(objects@) =~= parsed_objects(set));
            Ok(objects)
        },
    }
}

} // verus!
