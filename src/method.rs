use vstd::prelude::*;

verus! {

/// The request methods a route can be registered for.
#[derive(Clone, Copy, PartialEq, Eq, Structural, Debug)]
pub enum Method {
    Get,
    Post,
    Delete,
    Put,
}

/// The token of a method as it stands at the start of a request line, in ASCII:
/// `GET`, `POST`, `DELETE` or `PUT`.
pub open spec fn method_bytes(m: Method) -> Seq<u8> {
    match m {
        Method::Get => seq![71u8, 69, 84],
        Method::Post => seq![80u8, 79, 83, 84],
        Method::Delete => seq![68u8, 69, 76, 69, 84, 69],
        Method::Put => seq![80u8, 85, 84],
    }
}

impl Method {
    /// The method's token as bytes.
    pub fn token(&self) -> (r: Vec<u8>)
        ensures
            r@ == method_bytes(*self),
    {
        match self {
            Method::Get => vec![71u8, 69, 84],
            Method::Post => vec![80u8, 79, 83, 84],
            Method::Delete => vec![68u8, 69, 76, 69, 84, 69],
            Method::Put => vec![80u8, 85, 84],
        }
    }
}

} // verus!
