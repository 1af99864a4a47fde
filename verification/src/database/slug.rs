use vstd::prelude::*;
use vstd::string::StringExecFns;
use crate::config::SUFFIX_LEN;

verus! {

/// The slug that the slug crate derives from a title.
pub uninterp spec fn slug_of(title: Seq<char>) -> Seq<char>;

/// `slug::slugify`: the slug of a title. It is a function of the title
/// alone.
#[verifier::external_body]
fn plain_slug(title: &str) -> (s: String)
    ensures
        s@ == slug_of(title@),
{
    slug::slugify(title)
}

/// An ASCII letter or digit.
pub open spec fn is_alphanumeric(c: char) -> bool {
    let n = c as u32;
    ||| 48 <= n <= 57
    ||| 65 <= n <= 90
    ||| 97 <= n <= 122
}

/// `Rng::sample` of rand with the `Alphanumeric` distribution, on the
/// thread's generator: one character drawn from the ASCII letters and
/// digits. Which one is not known.
#[verifier::external_body]
fn sample_alphanumeric() -> (c: char)
    ensures
        is_alphanumeric(c),
{
    char::from(rand::Rng::sample(&mut rand::thread_rng(), rand::distributions::Alphanumeric))
}

/// `String::push` of the standard library: appends one character.
#[verifier::external_body]
fn push_char(s: &mut String, c: char)
    ensures
        final(s)@ == old(s)@.push(c),
{
    s.push(c)
}

/// A random text of `len` ASCII letters and digits.
pub fn generate_suffix(len: usize) -> (suffix: String)
    ensures
        suffix@.len() == len,
        forall|i: int| 0 <= i < len ==> is_alphanumeric(#[trigger] suffix@[i]),
{
    let mut suffix = String::new();
    let mut i: usize = 0;
    while i < len
        invariant
            i <= len,
            suffix@.len() == i,
            forall|j: int| 0 <= j < i ==> is_alphanumeric(#[trigger] suffix@[j]),
        decreases len - i,
    {
        let c = sample_alphanumeric();
        push_char(&mut suffix, c);
        i += 1;
    }
    suffix
}

/// Whether `slug` is a slug for `title`: the slug of the title, and, where
/// slugs get a random suffix, a hyphen and [`SUFFIX_LEN`] ASCII letters and
/// digits behind it.
pub open spec fn is_slug_for(slug: Seq<char>, title: Seq<char>, random_suffix: bool) -> bool {
    if random_suffix {
        let n = slug_of(title).len() as int;
        &&& slug.len() == n + 1 + SUFFIX_LEN
        &&& slug.subrange(0, n) == slug_of(title)
        &&& slug[n] == '-'
        &&& forall|i: int| n < i < slug.len() ==> is_alphanumeric(#[trigger] slug[i])
    } else {
        slug == slug_of(title)
    }
}

/// Makes a slug for `title`, with a random suffix where `random_suffix`
/// says so.
pub fn slugify(title: &str, random_suffix: bool) -> (slug: String)
    ensures
        is_slug_for(slug@, title@, random_suffix),
{
    let base = plain_slug(title);
    if random_suffix {
        let suffix = generate_suffix(SUFFIX_LEN);
        let mut slug = base;
        push_char(&mut slug, '-');
        slug.append(suffix.as_str());
        assert(slug@.subrange(0, slug_of(title@).len() as int) =~= slug_of(title@));
        slug
    } else {
        base
    }
}

} // verus!
