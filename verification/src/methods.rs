//! JNI method signatures: the typed components a call is described with, and
//! the signature text built from them.

use vstd::prelude::*;
use vstd::string::{StrSliceExecFns, StringExecFns};

verus! {

/// A class named by its JNI descriptor, `Ljava/lang/String;` style, or by
/// its array form.
#[derive(Clone, Copy, Debug)]
pub struct ClassDecl(pub &'static str);

/// One component of a JNI method signature: a class, a primitive, or an
/// array of a primitive.
#[derive(Clone, Copy, Debug)]
pub enum SignatureComp {
    Class(ClassDecl),
    Boolean,
    Byte,
    Char,
    Short,
    Int,
    Long,
    Float,
    Double,
    Void,
    ArrayBoolean,
    ArrayByte,
    ArrayChar,
    ArrayShort,
    ArrayInt,
    ArrayLong,
    ArrayFloat,
    ArrayDouble,
}

/// A parameter list with no parameters.
#[derive(Clone, Copy, Debug)]
pub struct NoParam;

/// The signature text of one component.
pub open spec fn comp_str(c: SignatureComp) -> Seq<char> {
    match c {
        SignatureComp::Class(d) => d.0@,
        SignatureComp::Boolean => "Z"@,
        SignatureComp::Byte => "B"@,
        SignatureComp::Char => "C"@,
        SignatureComp::Short => "S"@,
        SignatureComp::Int => "I"@,
        SignatureComp::Long => "J"@,
        SignatureComp::Float => "F"@,
        SignatureComp::Double => "D"@,
        SignatureComp::Void => "V"@,
        SignatureComp::ArrayBoolean => "[Z"@,
        SignatureComp::ArrayByte => "[B"@,
        SignatureComp::ArrayChar => "[C"@,
        SignatureComp::ArrayShort => "[S"@,
        SignatureComp::ArrayInt => "[I"@,
        SignatureComp::ArrayLong => "[J"@,
        SignatureComp::ArrayFloat => "[F"@,
        SignatureComp::ArrayDouble => "[D"@,
    }
}

/// The name a class descriptor is found under: array descriptors as they
/// stand, class descriptors stripped of their leading `L` and trailing `;`.
pub open spec fn class_find_name(s: Seq<char>) -> Seq<char> {
    if s.len() >= 1 && s[0] == '[' {
        s
    } else {
        s.subrange(1, s.len() - 1)
    }
}

/// The name a signature component is found under: classes by
/// [`class_find_name`], everything else by its signature text.
pub open spec fn comp_find_name(c: SignatureComp) -> Seq<char> {
    match c {
        SignatureComp::Class(d) => class_find_name(d.0@),
        _ => comp_str(c),
    }
}

/// Whether a class descriptor is well formed enough to take a find name
/// from: non-empty, and unless it is an array form, long enough to carry
/// the delimiters that are stripped.
pub open spec fn class_wf(s: Seq<char>) -> bool {
    s.len() >= 1 && (s[0] == '[' || s.len() >= 2)
}

impl ClassDecl {
    /// The name this class is found under.
    pub fn for_finding(self) -> (r: &'static str)
        requires
            class_wf(self.0@),
        ensures
            r@ == class_find_name(self.0@),
    {
        let n = self.0.unicode_len();
        if self.0.get_char(0) == '[' {
            return self.0;
        }
        self.0.substring_char(1, n - 1)
    }
}

impl SignatureComp {
    /// The name this component is found under.
    pub fn for_finding(self) -> (r: &'static str)
        requires
            self matches SignatureComp::Class(d) ==> class_wf(d.0@),
        ensures
            r@ == comp_find_name(self),
    {
        match self {
            SignatureComp::Class(class_decl) => class_decl.for_finding(),
            other => other.as_str(),
        }
    }

    /// The signature text of this component.
    pub fn as_str(self) -> (r: &'static str)
        ensures
            r@ == comp_str(self),
    {
        match self {
            SignatureComp::Class(ClassDecl(class_decl)) => class_decl,
            SignatureComp::Boolean => "Z",
            SignatureComp::Byte => "B",
            SignatureComp::Char => "C",
            SignatureComp::Short => "S",
            SignatureComp::Int => "I",
            SignatureComp::Long => "J",
            SignatureComp::Float => "F",
            SignatureComp::Double => "D",
            SignatureComp::Void => "V",
            SignatureComp::ArrayBoolean => "[Z",
            SignatureComp::ArrayByte => "[B",
            SignatureComp::ArrayChar => "[C",
            SignatureComp::ArrayShort => "[S",
            SignatureComp::ArrayInt => "[I",
            SignatureComp::ArrayLong => "[J",
            SignatureComp::ArrayFloat => "[F",
            SignatureComp::ArrayDouble => "[D",
        }
    }
}

/// The signature texts of a parameter list, in order.
pub open spec fn concat_comps(params: Seq<SignatureComp>) -> Seq<char>
    decreases params.len(),
{
    if params.len() == 0 {
        Seq::<char>::empty()
    } else {
        concat_comps(params.drop_last()) + comp_str(params.last())
    }
}

/// The full text of a JNI method signature: the parameter components between
/// parentheses, then the result component.
pub open spec fn signature_str(params: Seq<SignatureComp>, result: SignatureComp) -> Seq<char> {
    "("@ + concat_comps(params) + ")"@ + comp_str(result)
}

/// Builds the signature text for a call with these parameters and result.
pub fn make_signature(params: &[SignatureComp], result: SignatureComp) -> (r: String)
    ensures
        r@ == signature_str(params@, result),
{
    let mut w = "(".to_owned();
    let n = params.len();
    let mut i: usize = 0;
    while i < n
        invariant
            n == params@.len(),
            i <= n,
            w@ == "("@ + concat_comps(params@.take(i as int)),
        decreases n - i,
    {
        w.append(params[i].as_str());
        proof {
            assert(params@.take(i + 1).drop_last() =~= params@.take(i as int));
            assert(params@.take(i + 1).last() == params@[i as int]);
        }
        i = i + 1;
    }
    proof {
        assert(params@.take(params@.len() as int) =~= params@);
    }
    w.append(")");
    w.append(result.as_str());
    w
}

} // verus!
