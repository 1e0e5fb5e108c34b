//! Translation helpers: the message catalog lookups of gettext, and the
//! placeholder substitution applied to translated messages.

use vstd::prelude::*;
use vstd::string::{StrSliceExecFns, StringExecFns};

use crate::pattern::{regex_compiles, regex_replace_all_literal, replace_all_literal};
use crate::text::{
    chars_of, lemma_split_pattern_absent, lemma_split_pattern_nonempty, occurs_at, split_pattern,
    split_pattern_ranges,
};

verus! {

/// `args[0] + parts[0] + args[1] + parts[1] + ...`, as long as both last.
pub open spec fn interleave(parts: Seq<Seq<char>>, args: Seq<Seq<char>>) -> Seq<char>
    decreases parts.len(),
{
    if parts.len() == 0 || args.len() == 0 {
        Seq::empty()
    } else {
        args[0] + parts[0] + interleave(parts.drop_first(), args.drop_first())
    }
}

/// `input` with its `{}` placeholders replaced by `args` in order; the text
/// after the last used placeholder is dropped when there are fewer arguments
/// than placeholders.
pub open spec fn freplace_text(input: Seq<char>, args: Seq<Seq<char>>) -> Seq<char> {
    let parts = split_pattern(input, "{}"@);
    parts[0] + interleave(parts.drop_first(), args)
}

/// The texts of a list of arguments.
pub open spec fn arg_views(args: Seq<&str>) -> Seq<Seq<char>> {
    args.map_values(|a: &str| a@)
}

proof fn lemma_interleave_step(p: Seq<Seq<char>>, a: Seq<Seq<char>>, k: int)
    requires
        0 <= k < p.len(),
        k < a.len(),
    ensures
        interleave(p.take(k + 1), a.take(k + 1)) == interleave(p.take(k), a.take(k)) + a[k] + p[k],
    decreases k,
{
    if k == 0 {
        let e = Seq::<Seq<char>>::empty();
        assert(p.take(1).drop_first() =~= e);
        assert(a.take(1).drop_first() =~= e);
        assert(interleave(e, e) == Seq::<char>::empty());
        assert(a.take(1)[0] == a[0] && p.take(1)[0] == p[0]);
        assert(interleave(p.take(1), a.take(1)) == a[0] + p[0] + Seq::<char>::empty());
        assert(a[0] + p[0] + Seq::<char>::empty() =~= a[0] + p[0]);
        assert(interleave(p.take(0), a.take(0)) =~= Seq::<char>::empty());
    } else {
        let p1 = p.drop_first();
        let a1 = a.drop_first();
        lemma_interleave_step(p1, a1, k - 1);
        assert(p.take(k + 1).drop_first() =~= p1.take(k));
        assert(a.take(k + 1).drop_first() =~= a1.take(k));
        assert(p.take(k).drop_first() =~= p1.take(k - 1));
        assert(a.take(k).drop_first() =~= a1.take(k - 1));
        assert(interleave(p.take(k + 1), a.take(k + 1)) =~= interleave(p.take(k), a.take(k)) + a[k]
            + p[k]);
    }
}

proof fn lemma_interleave_min(p: Seq<Seq<char>>, a: Seq<Seq<char>>, m: int)
    requires
        m == if p.len() <= a.len() {
            p.len() as int
        } else {
            a.len() as int
        },
    ensures
        interleave(p, a) == interleave(p.take(m), a.take(m)),
    decreases p.len(),
{
    if p.len() > 0 && a.len() > 0 {
        lemma_interleave_min(p.drop_first(), a.drop_first(), m - 1);
        assert(p.take(m).drop_first() =~= p.drop_first().take(m - 1));
        assert(a.take(m).drop_first() =~= a.drop_first().take(m - 1));
    } else {
        assert(interleave(p.take(m), a.take(m)) == Seq::<char>::empty());
    }
}

/// Replaces the `{}` placeholders of `input` by `args`, in order.
pub fn freplace(input: String, args: &[&str]) -> (r: String)
    ensures
        r@ == freplace_text(input@, arg_views(args@)),
{
    let cs = chars_of(input.as_str());
    let pat = chars_of("{}");
    proof {
        reveal_strlit("{}");
    }
    let ranges = split_pattern_ranges(&cs, &pat);
    let ghost parts = split_pattern(input@, "{}"@);
    let ghost rest = parts.drop_first();
    let ghost av = arg_views(args@);
    proof {
        lemma_split_pattern_nonempty(input@, "{}"@);
    }
    let s = input.as_str();
    let mut output = s.substring_char(ranges[0].0, ranges[0].1).to_owned();
    let mut j: usize = 1;
    assert(interleave(rest.take(0), av.take(0)) =~= Seq::<char>::empty());
    while j < ranges.len() && j - 1 < args.len()
        invariant
            1 <= j <= ranges@.len() == parts.len(),
            j - 1 <= args@.len(),
            s@ == input@,
            cs@ == input@,
            parts == split_pattern(input@, "{}"@),
            rest == parts.drop_first(),
            av == arg_views(args@),
            forall|k: int|
                #![trigger ranges@[k]]
                0 <= k < ranges@.len() ==> ranges@[k].0 <= ranges@[k].1 <= cs@.len()
                    && cs@.subrange(ranges@[k].0 as int, ranges@[k].1 as int) == parts[k],
            output@ == parts[0] + interleave(rest.take(j - 1), av.take(j - 1)),
        decreases ranges.len() - j,
    {
        proof {
            lemma_interleave_step(rest, av, j - 1);
        }
        output.append(args[j - 1]);
        output.append(s.substring_char(ranges[j].0, ranges[j].1));
        assert(output@ =~= parts[0] + interleave(rest.take(j as int), av.take(j as int)));
        j = j + 1;
    }
    proof {
        let m = if rest.len() <= av.len() {
            rest.len() as int
        } else {
            av.len() as int
        };
        lemma_interleave_min(rest, av, m);
        assert(m == j - 1);
    }
    output
}

/// The regular expression that matches the placeholder `{k}`.
pub open spec fn key_pattern(k: Seq<char>) -> Seq<char> {
    "\\{"@ + k + "\\}"@
}

/// `s` with each `{key}` placeholder of `kwargs` replaced by its value, one
/// key after the other; a key whose placeholder pattern does not compile is
/// skipped.
pub open spec fn kreplace_text(s: Seq<char>, kwargs: Seq<(Seq<char>, Seq<char>)>) -> Seq<char>
    decreases kwargs.len(),
{
    if kwargs.len() == 0 {
        s
    } else {
        let prev = kreplace_text(s, kwargs.drop_last());
        let (k, v) = kwargs.last();
        if regex_compiles(key_pattern(k)) {
            regex_replace_all_literal(key_pattern(k), prev, v)
        } else {
            prev
        }
    }
}

/// The texts of a list of keyword arguments.
pub open spec fn kwarg_views(kwargs: Seq<(&str, &str)>) -> Seq<(Seq<char>, Seq<char>)> {
    kwargs.map_values(|p: (&str, &str)| (p.0@, p.1@))
}

/// Replaces the `{key}` placeholders of `input` by the values of `kwargs`.
pub fn kreplace(input: String, kwargs: &[(&str, &str)]) -> (r: String)
    ensures
        r@ == kreplace_text(input@, kwarg_views(kwargs@)),
{
    let mut s = input;
    let ghost start = s@;
    let ghost kv = kwarg_views(kwargs@);
    let mut i: usize = 0;
    assert(kv.take(0) =~= Seq::<(Seq<char>, Seq<char>)>::empty());
    while i < kwargs.len()
        invariant
            i <= kwargs@.len(),
            kv == kwarg_views(kwargs@),
            s@ == kreplace_text(start, kv.take(i as int)),
        decreases kwargs.len() - i,
    {
        let (k, v) = kwargs[i];
        assert(kv.take(i + 1).drop_last() =~= kv.take(i as int));
        assert(kv.take(i + 1).last() == (k@, v@));
        let mut pattern = "\\{".to_owned();
        pattern.append(k);
        pattern.append("\\}");
        assert(pattern@ =~= key_pattern(k@));
        match replace_all_literal(pattern.as_str(), s.as_str(), v) {
            Some(t) => {
                s = t;
            },
            None => {},
        }
        i = i + 1;
    }
    assert(kv.take(i as int) =~= kv);
    s
}


/// A message without `{}` placeholders is left as it is, whatever the
/// arguments.
pub proof fn lemma_freplace_without_placeholder(input: Seq<char>, args: Seq<Seq<char>>)
    requires
        forall|i: int| !occurs_at(input, "{}"@, i),
    ensures
        freplace_text(input, args) == input,
{
    lemma_split_pattern_absent(input, "{}"@);
    let parts = split_pattern(input, "{}"@);
    assert(parts.drop_first() =~= Seq::<Seq<char>>::empty());
    assert(input + Seq::<char>::empty() =~= input);
}

/// Without arguments only the text before the first placeholder is kept.
pub proof fn lemma_freplace_no_args(input: Seq<char>)
    ensures
        freplace_text(input, Seq::empty()) == split_pattern(input, "{}"@)[0],
{
    let parts = split_pattern(input, "{}"@);
    assert(parts[0] + Seq::<char>::empty() =~= parts[0]);
}

/// Without keyword arguments the message is left as it is.
pub proof fn lemma_kreplace_no_kwargs(input: Seq<char>)
    ensures
        kreplace_text(input, Seq::empty()) == input,
{
}

/// A text without a NUL character, as the C gettext API takes and gives.
pub open spec fn no_nul(s: Seq<char>) -> bool {
    !s.contains('\0')
}

/// Why the translations could not be set up.
#[derive(Debug, Clone, Copy, PartialEq, Eq, Structural)]
pub enum TranslationSetupError {
    /// The catalog directory could not be bound to the text domain.
    BindDirectory,
    /// The text domain could not be made the default one.
    TextDomain,
    /// The text domain could not be bound to the UTF-8 codeset.
    BindCodeset,
}

/// Translations that come back as UTF-8: the text domain is the default one,
/// its catalogs are looked for in the directory it was set up with, and its
/// results are converted to UTF-8. A value exists only after
/// [`Translations::setup`] succeeded; every translation takes one, since
/// gettext-rs panics on a translation that is not UTF-8. (The locale itself
/// is chosen with `setlocale`, which is the program's business.)
pub struct Translations {
    domain: String,
}

/// `gettextrs::bindtextdomain`: makes `dir` the catalog directory of
/// `domain`. It panics on a NUL character in either, which `requires` leaves
/// out. Nothing is claimed of success or failure, which depend on the system.
#[verifier::external_body]
fn bind_text_domain(domain: &str, dir: &str) -> Result<(), ()>
    requires
        no_nul(domain@),
        no_nul(dir@),
{
    match gettextrs::bindtextdomain(domain, dir) {
        Ok(_) => Ok(()),
        Err(_) => Err(()),
    }
}

/// `gettextrs::textdomain`: makes `domain` the default text domain. It
/// panics on a NUL character, which `requires` leaves out. Nothing is claimed
/// of success or failure.
#[verifier::external_body]
fn set_text_domain(domain: &str) -> Result<(), ()>
    requires
        no_nul(domain@),
{
    match gettextrs::textdomain(domain) {
        Ok(_) => Ok(()),
        Err(_) => Err(()),
    }
}

/// `gettextrs::bind_textdomain_codeset(domain, "UTF-8")`: asks gettext to
/// convert the translations of `domain` to UTF-8. It panics on a NUL
/// character in `domain`, which `requires` leaves out, and on a non-UTF-8
/// codeset name coming back, which cannot happen for the name `UTF-8` it
/// sets. Nothing is claimed of success or failure.
#[verifier::external_body]
fn bind_utf8_codeset(domain: &str) -> Result<(), ()>
    requires
        no_nul(domain@),
{
    match gettextrs::bind_textdomain_codeset(domain, "UTF-8") {
        Ok(_) => Ok(()),
        Err(_) => Err(()),
    }
}

impl Translations {
    /// The text domain.
    pub closed spec fn domain(self) -> Seq<char> {
        self.domain@
    }

    /// Binds the text domain `domain` to the catalogs in `locale_dir`, makes
    /// it the default domain and has its translations converted to UTF-8, in
    /// that order; the error names the first step that failed. Whether a step
    /// succeeds depends on the system.
    pub fn setup(domain: &str, locale_dir: &str) -> (r: Result<Translations, TranslationSetupError>)
        requires
            no_nul(domain@),
            no_nul(locale_dir@),
        ensures
            r matches Ok(t) ==> t.domain() == domain@,
    {
        if bind_text_domain(domain, locale_dir).is_err() {
            return Err(TranslationSetupError::BindDirectory);
        }
        if set_text_domain(domain).is_err() {
            return Err(TranslationSetupError::TextDomain);
        }
        if bind_utf8_codeset(domain).is_err() {
            return Err(TranslationSetupError::BindCodeset);
        }
        Ok(Translations { domain: domain.to_owned() })
    }
}

/// `gettextrs::gettext`: the translation of `msgid` in the current locale
/// and text domain. It panics on a `msgid` with a NUL character, which
/// `requires` leaves out. Of the result only this is claimed: being read from
/// a C string, it holds no NUL character. Which text it is depends on the
/// process's locale settings and installed catalogs, and is not stated.
/// gettext-rs also panics on a translation that is not UTF-8; `_tr` exists
/// only once the default domain's codeset is bound to UTF-8, as the crate's
/// documentation asks so that this cannot happen.
#[verifier::external_body]
fn gettext(_tr: &Translations, msgid: &str) -> (r: String)
    requires
        no_nul(msgid@),
    ensures
        no_nul(r@),
{
    gettextrs::gettext(msgid)
}

/// `gettextrs::ngettext`: the singular or plural translation for `number`.
/// It panics on a message with a NUL character, which `requires` leaves out.
/// The result, read from a C string, holds no NUL character; which text it
/// is (locale-dependent) is not stated.
/// gettext-rs also panics on a translation that is not UTF-8; `_tr` exists
/// only once the default domain's codeset is bound to UTF-8, as the crate's
/// documentation asks so that this cannot happen.
#[verifier::external_body]
fn ngettext(_tr: &Translations, single: &str, multiple: &str, number: u32) -> (r: String)
    requires
        no_nul(single@),
        no_nul(multiple@),
    ensures
        no_nul(r@),
{
    gettextrs::ngettext(single, multiple, number)
}

/// `gettextrs::pgettext`: the translation of `msgid` in context `ctx`.
/// It panics on a context or message with a NUL character, which `requires`
/// leaves out. The result, read from a C string, holds no NUL character;
/// which text it is (locale-dependent) is not stated.
/// gettext-rs also panics on a translation that is not UTF-8; `_tr` exists
/// only once the default domain's codeset is bound to UTF-8, as the crate's
/// documentation asks so that this cannot happen.
#[verifier::external_body]
fn pgettext(_tr: &Translations, ctx: &str, msgid: &str) -> (r: String)
    requires
        no_nul(ctx@),
        no_nul(msgid@),
    ensures
        no_nul(r@),
{
    gettextrs::pgettext(ctx, msgid)
}

/// `gettextrs::npgettext`: the singular or plural translation in context
/// `ctx`. It panics on a context or message with a NUL character, which
/// `requires` leaves out. The result, read from a C string, holds no NUL
/// character; which text it is (locale-dependent) is not stated.
/// gettext-rs also panics on a translation that is not UTF-8; `_tr` exists
/// only once the default domain's codeset is bound to UTF-8, as the crate's
/// documentation asks so that this cannot happen.
#[verifier::external_body]
fn npgettext(_tr: &Translations, ctx: &str, single: &str, multiple: &str, number: u32) -> (r: String)
    requires
        no_nul(ctx@),
        no_nul(single@),
        no_nul(multiple@),
    ensures
        no_nul(r@),
{
    gettextrs::npgettext(ctx, single, multiple, number)
}

/// The translation of `format`.
pub fn i18n(tr: &Translations, format: &str) -> (r: String)
    requires
        no_nul(format@),
    ensures
        no_nul(r@),
{
    gettext(tr, format)
}

/// The translation of `format` with its `{}` placeholders filled by `args`.
pub fn i18n_f(tr: &Translations, format: &str, args: &[&str]) -> (r: String)
    requires
        no_nul(format@),
    ensures
        exists|t: Seq<char>| r@ == freplace_text(t, arg_views(args@)),
{
    let s = gettext(tr, format);
    let ghost t = s@;
    freplace(s, args)
}

/// The translation of `format` with its `{key}` placeholders filled by `kwargs`.
pub fn i18n_k(tr: &Translations, format: &str, kwargs: &[(&str, &str)]) -> (r: String)
    requires
        no_nul(format@),
    ensures
        exists|t: Seq<char>| r@ == kreplace_text(t, kwarg_views(kwargs@)),
{
    let s = gettext(tr, format);
    let ghost t = s@;
    kreplace(s, kwargs)
}

/// The singular or plural translation for `number`.
pub fn ni18n(tr: &Translations, single: &str, multiple: &str, number: u32) -> (r: String)
    requires
        no_nul(single@),
        no_nul(multiple@),
    ensures
        no_nul(r@),
{
    ngettext(tr, single, multiple, number)
}

/// The singular or plural translation with `{}` placeholders filled by `args`.
pub fn ni18n_f(tr: &Translations, single: &str, multiple: &str, number: u32, args: &[&str]) -> (r: String)
    requires
        no_nul(single@),
        no_nul(multiple@),
    ensures
        exists|t: Seq<char>| r@ == freplace_text(t, arg_views(args@)),
{
    let s = ngettext(tr, single, multiple, number);
    let ghost t = s@;
    freplace(s, args)
}

/// The singular or plural translation with `{key}` placeholders filled by `kwargs`.
pub fn ni18n_k(tr: &Translations, single: &str, multiple: &str, number: u32, kwargs: &[(&str, &str)]) -> (r: String)
    requires
        no_nul(single@),
        no_nul(multiple@),
    ensures
        exists|t: Seq<char>| r@ == kreplace_text(t, kwarg_views(kwargs@)),
{
    let s = ngettext(tr, single, multiple, number);
    let ghost t = s@;
    kreplace(s, kwargs)
}

/// The translation of `format` in context `ctx`.
pub fn pi18n(tr: &Translations, ctx: &str, format: &str) -> (r: String)
    requires
        no_nul(ctx@),
        no_nul(format@),
    ensures
        no_nul(r@),
{
    pgettext(tr, ctx, format)
}

/// The translation in context `ctx` with `{}` placeholders filled by `args`.
pub fn pi18n_f(tr: &Translations, ctx: &str, format: &str, args: &[&str]) -> (r: String)
    requires
        no_nul(ctx@),
        no_nul(format@),
    ensures
        exists|t: Seq<char>| r@ == freplace_text(t, arg_views(args@)),
{
    let s = pgettext(tr, ctx, format);
    let ghost t = s@;
    freplace(s, args)
}

/// The translation in context `ctx` with `{key}` placeholders filled by `kwargs`.
pub fn pi18n_k(tr: &Translations, ctx: &str, format: &str, kwargs: &[(&str, &str)]) -> (r: String)
    requires
        no_nul(ctx@),
        no_nul(format@),
    ensures
        exists|t: Seq<char>| r@ == kreplace_text(t, kwarg_views(kwargs@)),
{
    let s = pgettext(tr, ctx, format);
    let ghost t = s@;
    kreplace(s, kwargs)
}

/// The singular or plural translation in context `ctx`.
pub fn pni18n(tr: &Translations, ctx: &str, single: &str, multiple: &str, number: u32) -> (r: String)
    requires
        no_nul(ctx@),
        no_nul(single@),
        no_nul(multiple@),
    ensures
        no_nul(r@),
{
    npgettext(tr, ctx, single, multiple, number)
}

/// The singular or plural translation in context `ctx` with `{}`
/// placeholders filled by `args`.
pub fn pni18n_f(tr: &Translations, ctx: &str, single: &str, multiple: &str, number: u32, args: &[&str]) -> (r: String)
    requires
        no_nul(ctx@),
        no_nul(single@),
        no_nul(multiple@),
    ensures
        exists|t: Seq<char>| r@ == freplace_text(t, arg_views(args@)),
{
    let s = npgettext(tr, ctx, single, multiple, number);
    let ghost t = s@;
    freplace(s, args)
}

/// The singular or plural translation in context `ctx` with `{key}`
/// placeholders filled by `kwargs`.
pub fn pni18n_k(
    tr: &Translations,
    ctx: &str,
    single: &str,
    multiple: &str,
    number: u32,
    kwargs: &[(&str, &str)],
) -> (r: String)
    requires
        no_nul(ctx@),
        no_nul(single@),
        no_nul(multiple@),
    ensures
        exists|t: Seq<char>| r@ == kreplace_text(t, kwarg_views(kwargs@)),
{
    let s = npgettext(tr, ctx, single, multiple, number);
    let ghost t = s@;
    kreplace(s, kwargs)
}

} // verus!
