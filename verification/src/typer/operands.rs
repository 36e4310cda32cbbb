//! What operators, tests and accesses ask of their operands, and what they give.

use crate::typer::assign::{builtin, flows};
use crate::typer::ast::{BinOp, IntSuffix, Stmt, Ty};
use crate::typer::descent::{descends, subclass_law};
use crate::typer::exprs::{
    await_ty, binary_ty, cast_ty, field_target_ty, field_ty, is_test_ty, null_call_ty,
    null_field_ty, range_ty, static_member_ty, super_member_ty, try_unwrap_ty, var_ty, without_null,
};
use crate::typer::flow::terminates;
use crate::typer::hierarchy::{
    instance_field, instance_property, method_found, static_field, static_property, Walk,
};
use crate::typer::info::TableModel;
use crate::typer::keyed::lookup;
use crate::typer::rules::{accessible, operator_types, Around};
use crate::typer::types::{
    arithmetic, operator_method, promotion_laws, resolved, subst_of, subst_ty, suffixed, widens,
};
use vstd::prelude::*;

verus! {

/// A type of integers.
pub open spec fn whole(ty: Ty) -> bool {
    ty is Int8 || ty is Int16 || ty is Int32 || ty is Int64 || ty is UInt8 || ty is UInt16
        || ty is UInt32 || ty is UInt64
}

/// A type of integers some of which are negative.
pub open spec fn signed(ty: Ty) -> bool {
    ty is Int8 || ty is Int16 || ty is Int32 || ty is Int64
}

/// A type of floating point numbers.
pub open spec fn floating(ty: Ty) -> bool {
    ty is Float32 || ty is Float64
}

/// A type of numbers, literals included.
pub open spec fn number(ty: Ty) -> bool {
    whole(ty) || floating(ty) || ty is IntLit || ty is FloatLit
}

/// A type that is no class, no type parameter and has no `null`.
pub open spec fn simple(ty: Ty) -> bool {
    !(ty is Class) && !(ty is GenericParam) && !(ty is Nullable)
}

/// Arithmetic takes two numbers, and gives the least type that holds them both:
/// an integer for two integers, a floating point number otherwise. It is refused
/// only where a signed integer meets the widest unsigned one. The order of the
/// operands makes no difference.
pub proof fn arithmetic_law(a: Ty, b: Ty, c: Ty)
    ensures
        arithmetic(a, b) is Ok <==> number(a) && number(b) && !(signed(resolved(a)) && resolved(
            b,
        ) is UInt64) && !(resolved(a) is UInt64 && signed(resolved(b))),
        arithmetic(a, b) is Ok ==> arithmetic(a, b) == arithmetic(b, a),
        arithmetic(a, b) matches Ok(ty) ==> {
            let (x, y) = (resolved(a), resolved(b));
            &&& ty == x || widens(ty, x)
            &&& ty == y || widens(ty, y)
            &&& whole(ty) <==> whole(x) && whole(y)
            &&& floating(ty) <==> floating(x) || floating(y)
            &&& x == y ==> ty == x
            &&& whole(ty) && whole(c) && (c == x || widens(c, x)) && (c == y || widens(c, y)) ==> c
                == ty || widens(c, ty)
        },
{
    let (x, y) = (resolved(a), resolved(b));
    if x.is_numeric() && y.is_numeric() {
        promotion_laws(x, y);
    }
}

/// On what is no class, no type parameter and has no `null`, an operator that does
/// not compare is arithmetic. A class without the overload, and what may be
/// `null`, is refused.
pub proof fn operation_law(t: TableModel, sc: Around, op: BinOp, lt: Ty, rt: Ty)
    requires
        !op.compares(),
    ensures
        simple(lt) ==> binary_ty(t, sc, op, lt, rt) == arithmetic(lt, rt),
        operator_types(t, op, lt) matches Some((param, ret)) ==> if flows(t, param, rt) {
            binary_ty(t, sc, op, lt, rt) == Ok::<Ty, Seq<char>>(ret)
        } else {
            binary_ty(t, sc, op, lt, rt) is Err
        },
        lt is Class && lookup(t.classes, lt->Class_0) is Some && operator_types(t, op, lt) is None
            ==> binary_ty(t, sc, op, lt, rt) is Err,
        lt is Nullable ==> binary_ty(t, sc, op, lt, rt) is Err,
        simple(lt) && rt is Nullable ==> binary_ty(t, sc, op, lt, rt) is Err,
{
}

/// A comparison gives a truth value. Anything compares with `null`; numbers compare
/// with numbers and with nothing else, a value with one of its own type, and
/// objects of a class in order only by its overload.
pub proof fn comparison_law(t: TableModel, sc: Around, op: BinOp, lt: Ty, rt: Ty)
    requires
        op.compares(),
    ensures
        binary_ty(t, sc, op, lt, rt) matches Ok(ty) ==> ty is Bool,
        lt.is_null() || rt.is_null() ==> binary_ty(t, sc, op, lt, rt) is Ok,
        number(lt) && number(rt) ==> binary_ty(t, sc, op, lt, rt) is Ok,
        number(lt) && !rt.is_null() && !number(without_null(rt)) ==> binary_ty(t, sc, op, lt, rt) is Err,
        simple(lt) && !number(lt) && number(rt) ==> binary_ty(t, sc, op, lt, rt) is Err,
        simple(lt) && lt == rt ==> binary_ty(t, sc, op, lt, rt) is Ok,
        lt is Bool && !(without_null(rt) is Bool) && !rt.is_null() ==> binary_ty(
            t,
            sc,
            op,
            lt,
            rt,
        ) is Err,
        !lt.is_null() && !rt.is_null() ==> (operator_types(t, op, lt) matches Some((param, _))
            ==> (binary_ty(t, sc, op, lt, rt) is Ok <==> flows(t, param, rt))),
        op != BinOp::Eq && op != BinOp::Ne && !lt.is_null() && !rt.is_null() && lt is Class
            && lookup(t.classes, lt->Class_0) is Some && operator_types(t, op, lt) is None
            ==> binary_ty(t, sc, op, lt, rt) is Err,
{
}

/// An operator on objects is the method of that name that the class has or
/// inherits: it takes the right operand as its parameter and gives what it
/// returns, the type arguments put in. `!=` is the method of `==`, and any two
/// other operators have different methods.
pub proof fn overload_law(t: TableModel, op: BinOp, other: BinOp, class: Seq<char>, args: Seq<Ty>)
    requires
        class != "null"@,
    ensures
        operator_method(BinOp::Eq) == operator_method(BinOp::Ne),
        operator_method(op) is None <==> op == BinOp::And || op == BinOp::Or,
        operator_method(op) is Some && operator_method(op) == operator_method(other) ==> op == other
            || ((op == BinOp::Eq || op == BinOp::Ne) && (other == BinOp::Eq || other == BinOp::Ne)),
        operator_types(t, op, Ty::Class(class, args)) is Some <==> {
            &&& operator_method(op) is Some
            &&& lookup(t.classes, class) is Some
            &&& method_found(t.classes, class, operator_method(op)->0) is Some
            &&& (method_found(t.classes, class, operator_method(op)->0)->0).1.params.len() > 0
        },
        operator_types(t, op, Ty::Class(class, args)) matches Some((param, ret)) ==> {
            let m = (method_found(t.classes, class, operator_method(op)->0)->0).1;
            let s = subst_of((lookup(t.classes, class)->0).generics, args);
            &&& param == subst_ty(m.params[0], s)
            &&& ret == subst_ty(m.return_ty, s)
        },
{
    reveal_strlit("operator+");
    reveal_strlit("operator-");
    reveal_strlit("operator*");
    reveal_strlit("operator/");
    reveal_strlit("operator%");
    reveal_strlit("operator==");
    reveal_strlit("operator<");
    reveal_strlit("operator<=");
    reveal_strlit("operator>");
    reveal_strlit("operator>=");
    if operator_method(op) is Some && operator_method(op) == operator_method(other) {
        let (x, y) = (operator_method(op)->0, operator_method(other)->0);
        assert(x.len() == y.len() && x[8] == y[8]);
    }
}

/// A cast goes from a number to a number, and gives what was asked for.
pub proof fn cast_law(inner: Ty, ty: Ty)
    ensures
        cast_ty(inner, ty) is Ok <==> number(inner) && number(ty),
        cast_ty(inner, ty) matches Ok(got) ==> got == ty,
{
}

/// `is` tests an object against a class of the program without type arguments.
/// Between classes it may succeed: one is above the other.
pub proof fn test_law(t: TableModel, subject: Ty, tested: Seq<char>, args: Seq<Ty>)
    ensures
        is_test_ty(t, subject, Ty::Class(tested, args)) is Ok <==> {
            &&& args.len() == 0
            &&& !builtin(t.builtins, tested)
            &&& lookup(t.classes, tested) is Some
            &&& without_null(subject) is Class
            &&& {
                let class = without_null(subject)->Class_0;
                ||| (lookup(t.classes, tested)->0).is_interface
                ||| (lookup(t.classes, class) is Some && (lookup(t.classes, class)->0).is_interface)
                ||| descends(t.classes, Walk::Up, tested, class)
                ||| descends(t.classes, Walk::Up, class, tested)
            }
        },
        is_test_ty(t, subject, Ty::Class(tested, args)) matches Ok(ty) ==> ty is Bool,
{
    let class = without_null(subject)->Class_0;
    subclass_law(t.classes, tested, class, class);
    subclass_law(t.classes, class, tested, tested);
}

/// What is awaited is a task, and its result comes out; the ends of a range are
/// integers.
pub proof fn awaiting_law(a: Ty, b: Ty)
    ensures
        await_ty(a) is Ok <==> a is Class && a->Class_0 == "Task"@ && a->Class_1.len() == 1,
        await_ty(a) matches Ok(ty) ==> ty == a->Class_1[0],
        range_ty(a, b) is Ok <==> (whole(a) || a is IntLit) && (whole(b) || b is IntLit),
        range_ty(a, b) matches Ok(ty) ==> ty == Ty::Class("Range"@, seq![]),
{
}

/// `?.` gives the field, or what the call gives, with `null`; nothing comes of a
/// call that returns nothing.
pub proof fn optional_law(t: TableModel, sc: Around, obj: Ty, name: Seq<char>, returned: Ty)
    ensures
        null_field_ty(t, sc, obj, name) matches Ok(ty) ==> {
            let class = without_null(obj)->Class_0;
            &&& without_null(obj) is Class
            &&& ty is Nullable
            &&& instance_field(t.classes, class, name) matches Some((d, (declared, v)))
                && accessible(t.classes, sc.class.name, d, v) && without_null(ty) == without_null(
                declared,
            )
        },
        null_call_ty(returned) is Unit <==> returned is Unit,
        !(returned is Unit) ==> null_call_ty(returned) is Nullable && without_null(
            null_call_ty(returned),
        ) == without_null(returned),
{
}

/// Nothing is read from what may be `null`. A wrapped value gives what it wraps,
/// as `Value` only. Only objects are written to.
pub proof fn reading_law(t: TableModel, sc: Around, obj: Ty, name: Seq<char>)
    ensures
        obj is Nullable ==> field_ty(t, sc, obj, name) is Err,
        obj matches Ty::Newtype(_, u) ==> if name == "Value"@ {
            field_ty(t, sc, obj, name) == Ok::<Ty, Seq<char>>(*u)
        } else {
            field_ty(t, sc, obj, name) is Err
        },
        obj is String ==> (field_ty(t, sc, obj, name) is Ok <==> lookup(
            t.string_properties,
            name,
        ) is Some),
        field_ty(t, sc, obj, name) is Ok ==> obj is Class || obj is Newtype || obj is String
            || obj is StringLit || obj is LiteralUnion,
        field_target_ty(t, sc, obj, name) is Ok ==> obj is Class,
{
}

/// A member of a class itself is a static property with that accessor, which may
/// be used here, or a static field that may; its type is the declared one.
pub proof fn static_law(t: TableModel, sc: Around, class: Seq<char>, name: Seq<char>, set: bool)
    requires
        static_member_ty(t, sc, class, name, set) is Ok,
    ensures
        ({
            let ty = static_member_ty(t, sc, class, name, set)->Ok_0;
            &&& lookup(t.classes, class) is Some
            &&& static_property(t.classes, class, name) matches Some((d, p)) ==> {
                &&& ty == p.ty
                &&& set ==> p.has_setter && accessible(
                    t.classes,
                    sc.class.name,
                    d,
                    p.setter_visibility,
                )
                &&& !set ==> p.has_getter && accessible(
                    t.classes,
                    sc.class.name,
                    d,
                    p.getter_visibility,
                )
            }
            &&& static_property(t.classes, class, name) is None ==> (static_field(
                t.classes,
                class,
                name,
            ) matches Some((d, (declared, v))) && ty == declared && accessible(
                t.classes,
                sc.class.name,
                d,
                v,
            ))
        }),
{
}

/// A member through `super` is one of the super class, in a method of an instance.
pub proof fn super_law(t: TableModel, sc: Around, name: Seq<char>, set: bool)
    requires
        super_member_ty(t, sc, name, set) is Ok,
    ensures
        ({
            let ty = super_member_ty(t, sc, name, set)->Ok_0;
            let s = sc.class.super_class->0;
            &&& sc.in_instance
            &&& sc.class.super_class is Some
            &&& instance_property(t.classes, s, name) matches Some((d, p)) ==> {
                &&& ty == p.ty
                &&& set ==> p.has_setter && accessible(
                    t.classes,
                    sc.class.name,
                    d,
                    p.setter_visibility,
                )
                &&& !set ==> p.has_getter && accessible(
                    t.classes,
                    sc.class.name,
                    d,
                    p.getter_visibility,
                )
            }
            &&& instance_property(t.classes, s, name) is None ==> (instance_field(
                t.classes,
                s,
                name,
            ) matches Some((d, (declared, v))) && ty == declared && accessible(
                t.classes,
                sc.class.name,
                d,
                v,
            ))
        }),
{
}

/// A name stands for a local before it stands for a field, and for a field of the
/// instance before one of the class. `this` is the instance, and there is none in
/// a static method; nor are there its fields.
pub proof fn naming_law(t: TableModel, sc: Around, locals: Seq<(Seq<char>, Ty)>, name: Seq<char>)
    requires
        name != "super"@,
    ensures
        name == "this"@ ==> if sc.in_instance {
            var_ty(t, sc, locals, name) == Ok::<Ty, Seq<char>>(Ty::Class(sc.class.name, seq![]))
        } else {
            var_ty(t, sc, locals, name) is Err
        },
        name != "this"@ ==> (lookup(locals, name) matches Some(ty) ==> var_ty(t, sc, locals, name)
            == Ok::<Ty, Seq<char>>(ty)),
        name != "this"@ && lookup(locals, name) is None && sc.in_instance ==> (instance_field(
            t.classes,
            sc.class.name,
            name,
        ) matches Some((d, (ty, v))) ==> if accessible(t.classes, sc.class.name, d, v) {
            var_ty(t, sc, locals, name) == Ok::<Ty, Seq<char>>(ty)
        } else {
            var_ty(t, sc, locals, name) is Err
        }),
        name != "this"@ && lookup(locals, name) is None && (!sc.in_instance || instance_field(
            t.classes,
            sc.class.name,
            name,
        ) is None) ==> (var_ty(t, sc, locals, name) is Ok <==> (static_field(
            t.classes,
            sc.class.name,
            name,
        ) matches Some((d, (ty, v))) && accessible(t.classes, sc.class.name, d, v))),
{
}

/// `e?` takes the value out of the first variant, and hands any other on: the
/// function around returns the same sum type.
pub proof fn unwrapping_law(
    t: TableModel,
    sc: Around,
    name: Seq<char>,
    args: Seq<Ty>,
    returned: Seq<char>,
    other: Seq<Ty>,
)
    requires
        lookup(t.enums, name) is Some,
        lookup(t.enums, returned) is Some,
        sc.return_ty == Ty::Class(returned, other),
    ensures
        ({
            let e = lookup(t.enums, name)->0;
            let got = try_unwrap_ty(t, sc, Ty::Class(name, args));
            &&& got is Ok <==> name == returned && e.variants.len() > 0
                && e.variants[0].fields.len() == 1
            &&& got matches Ok(ty) ==> ty == subst_ty(
                e.variants[0].fields[0].1,
                subst_of(e.generics, args),
            )
        }),
{
}

/// An integer literal with a suffix has the type that the suffix names, and is
/// refused where the type cannot hold it; without a suffix any literal is taken.
pub proof fn suffix_law(v: i64)
    ensures
        suffixed(IntSuffix::Plain, v) == Ok::<Ty, Seq<char>>(Ty::IntLit(v)),
        suffixed(IntSuffix::I8, v) is Ok <==> i8::MIN <= v <= i8::MAX,
        suffixed(IntSuffix::I16, v) is Ok <==> i16::MIN <= v <= i16::MAX,
        suffixed(IntSuffix::I32, v) is Ok <==> i32::MIN <= v <= i32::MAX,
        suffixed(IntSuffix::I64, v) == Ok::<Ty, Seq<char>>(Ty::Int64),
        suffixed(IntSuffix::U8, v) is Ok <==> 0 <= v <= u8::MAX,
        suffixed(IntSuffix::U16, v) is Ok <==> 0 <= v <= u16::MAX,
        suffixed(IntSuffix::U32, v) is Ok <==> 0 <= v <= u32::MAX,
        suffixed(IntSuffix::U64, v) is Ok <==> 0 <= v,
        suffixed(IntSuffix::I8, v) matches Ok(t) ==> t is Int8,
        suffixed(IntSuffix::I16, v) matches Ok(t) ==> t is Int16,
        suffixed(IntSuffix::I32, v) matches Ok(t) ==> t is Int32,
        suffixed(IntSuffix::U8, v) matches Ok(t) ==> t is UInt8,
        suffixed(IntSuffix::U16, v) matches Ok(t) ==> t is UInt16,
        suffixed(IntSuffix::U32, v) matches Ok(t) ==> t is UInt32,
        suffixed(IntSuffix::U64, v) matches Ok(t) ==> t is UInt64,
{
}

/// Control leaves a branch for good where its last statement returns, throws,
/// breaks out of a loop or goes on with it.
pub proof fn leaving_law(before: Seq<Stmt>, last: Stmt)
    ensures
        terminates(before.push(last)) <==> last is Return || last is Throw || last is Break
            || last is Continue,
        !terminates(Seq::<Stmt>::empty()),
{
}

} // verus!
