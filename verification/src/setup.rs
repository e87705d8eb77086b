//! Startup checks around the GL context: the GLX version and extension
//! requirements, and the classification of a context-creation attempt.
//!
//! The caller performs the server queries; the decisions over what they
//! returned are made and specified here.
use vstd::prelude::*;

verus! {

/// The space byte that separates names in a GLX extension list.
pub const EXTENSION_SEPARATOR: u8 = 32;

/// `name` occurs at position `i` of `s` as a whole space-delimited word.
pub open spec fn is_word_at(s: Seq<u8>, i: int, name: Seq<u8>) -> bool {
    &&& 0 <= i
    &&& i + name.len() <= s.len()
    &&& s.subrange(i, i + name.len()) == name
    &&& (i == 0 || s[i - 1] == EXTENSION_SEPARATOR)
    &&& (i + name.len() == s.len() || s[i + name.len()] == EXTENSION_SEPARATOR)
}

/// `name` occurs somewhere in `s` as a whole space-delimited word.
pub open spec fn contains_word(s: Seq<u8>, name: Seq<u8>) -> bool {
    exists|i: int| is_word_at(s, i, name)
}

/// Checks whether a GLX extension name appears in the server's extension
/// query string (a space-separated list of names). Extension names are
/// non-empty and never contain spaces.
pub fn check_glx_extension(glx_exts: &[u8], ext_name: &[u8]) -> (r: bool)
    requires
        ext_name@.len() > 0,
        forall|k: int| 0 <= k < ext_name@.len() ==> ext_name@[k] != EXTENSION_SEPARATOR,
    ensures
        r == contains_word(glx_exts@, ext_name@),
{
    let n = glx_exts.len();
    let m = ext_name.len();
    let mut i: usize = 0;
    while i < n
        invariant
            i <= n,
            n == glx_exts@.len(),
            m == ext_name@.len(),
            m > 0,
            forall|k: int| 0 <= k < m ==> ext_name@[k] != EXTENSION_SEPARATOR,
            i == 0 || i == n || glx_exts@[i - 1] == EXTENSION_SEPARATOR,
            forall|k: int| is_word_at(glx_exts@, k, ext_name@) ==> k >= i,
        decreases n - i,
    {
        let ghost start = i as int;
        let mut j: usize = i;
        while j < n && glx_exts[j] != EXTENSION_SEPARATOR
            invariant
                i <= j <= n,
                n == glx_exts@.len(),
                forall|t: int| i <= t < j ==> glx_exts@[t] != EXTENSION_SEPARATOR,
            decreases n - j,
        {
            j = j + 1;
        }
        // the token runs from i to j; j is the delimiting space or the end
        if j - i == m {
            let mut all_eq = true;
            for t in 0..m
                invariant
                    m == ext_name@.len(),
                    n == glx_exts@.len(),
                    i + m <= n,
                    i == start,
                    all_eq <==> (forall|u: int|
                        0 <= u < t ==> glx_exts@[i + u] == ext_name@[u]),
            {
                if glx_exts[i + t] != ext_name[t] {
                    all_eq = false;
                }
            }
            if all_eq {
                proof {
                    assert(glx_exts@.subrange(start, start + m as int) =~= ext_name@);
                    assert(is_word_at(glx_exts@, start, ext_name@));
                }
                return true;
            }
        }
        proof {
            assert forall|k: int| is_word_at(glx_exts@, k, ext_name@) implies k >= j + 1 by {
                if k < j + 1 {
                    assert(k >= i);
                    if k > i {
                        // a word must start at 0 or after a space, but
                        // positions i+1 ..= j sit right after token bytes
                        assert(glx_exts@[k - 1] != EXTENSION_SEPARATOR);
                    } else {
                        // k == i: the token here is not the name
                        assert(i + m <= n && glx_exts@.subrange(start, start + m as int)
                            == ext_name@ && (i + m == n || glx_exts@[i + m as int]
                            == EXTENSION_SEPARATOR));
                        if i + m < j {
                            assert(glx_exts@[i + m as int] != EXTENSION_SEPARATOR);
                        } else if i + m > j {
                            assert(glx_exts@[j as int] == EXTENSION_SEPARATOR);
                            assert(ext_name@[j - i] == glx_exts@.subrange(
                                start,
                                start + m as int,
                            )[j - i]);
                        } else {
                            assert(glx_exts@.subrange(start, start + m as int)[0]
                                == glx_exts@[start]);
                            assert(exists|u: int|
                                0 <= u < m && glx_exts@[start + u] != ext_name@[u]);
                            let u = choose|u: int|
                                0 <= u < m && glx_exts@[start + u] != ext_name@[u];
                            assert(glx_exts@.subrange(start, start + m as int)[u]
                                == glx_exts@[start + u]);
                        }
                    }
                }
            }
        }
        if j < n {
            i = j + 1;
        } else {
            i = n;
        }
    }
    proof {
        if contains_word(glx_exts@, ext_name@) {
            let k = choose|k: int| is_word_at(glx_exts@, k, ext_name@);
            assert(k + ext_name@.len() <= n);
        }
    }
    false
}

/// The GLX version as one decimal: major times ten plus minor.
pub fn glx_dec_version(maj: i32, min: i32) -> (r: i32)
    requires
        0 <= maj <= 1000,
        0 <= min <= 1000,
    ensures
        r == maj * 10 + min,
{
    maj * 10 + min
}

/// What a GLX setup check can find missing.
#[derive(Clone, Copy, PartialEq, Eq, Structural, Debug)]
pub enum GlxSetupError {
    /// The server's GLX is older than 1.3.
    Version,
    /// The create-context-attribs extension is not offered.
    NoCreateContext,
    /// The texture-from-pixmap extension is not offered.
    NoTextureFromPixmap,
}

impl GlxSetupError {
    /// The one-line startup diagnostic for this failure.
    pub fn message(&self) -> (r: &'static str)
        ensures
            self is Version ==> r@ == "glx-1.3 is not supported"@,
            self is NoCreateContext ==> r@
                == "could not find GLX extension GLX_ARB_create_context"@,
            self is NoTextureFromPixmap ==> r@
                == "could not find GLX extension GLX_EXT_texture_from_pixmap"@,
    {
        match self {
            GlxSetupError::Version => "glx-1.3 is not supported",
            GlxSetupError::NoCreateContext => "could not find GLX extension GLX_ARB_create_context",
            GlxSetupError::NoTextureFromPixmap => "could not find GLX extension GLX_EXT_texture_from_pixmap",
        }
    }
}

/// The first failed GLX requirement, in check order: version at least 1.3
/// (decimal 13), then the create-context extension, then
/// texture-from-pixmap.
pub open spec fn spec_glx_requirements(
    version_dec: i32,
    has_create_context: bool,
    has_texture_from_pixmap: bool,
) -> Result<(), GlxSetupError> {
    if version_dec < 13 {
        Err(GlxSetupError::Version)
    } else if !has_create_context {
        Err(GlxSetupError::NoCreateContext)
    } else if !has_texture_from_pixmap {
        Err(GlxSetupError::NoTextureFromPixmap)
    } else {
        Ok(())
    }
}

/// Decides whether the server's GLX is usable, from the queried version
/// and the two extension-list membership tests.
pub fn verify_extensions(
    version_dec: i32,
    has_create_context: bool,
    has_texture_from_pixmap: bool,
) -> (r: Result<(), GlxSetupError>)
    ensures
        r == spec_glx_requirements(version_dec, has_create_context, has_texture_from_pixmap),
{
    if version_dec < 13 {
        Err(GlxSetupError::Version)
    } else if !has_create_context {
        Err(GlxSetupError::NoCreateContext)
    } else if !has_texture_from_pixmap {
        Err(GlxSetupError::NoTextureFromPixmap)
    } else {
        Ok(())
    }
}

/// How a context-creation attempt can fail.
#[derive(Clone, Copy, PartialEq, Eq, Structural, Debug)]
pub enum ContextError {
    /// The call returned no context, or the transient error handler fired.
    Creation,
    /// The context came back indirect.
    Indirect,
}

impl ContextError {
    /// The one-line startup diagnostic for this failure.
    pub fn message(&self) -> (r: &'static str)
        ensures
            self is Creation ==> r@ == "error when creating gl-3.0 context"@,
            self is Indirect ==> r@ == "obtained indirect rendering context"@,
    {
        match self {
            ContextError::Creation => "error when creating gl-3.0 context",
            ContextError::Indirect => "obtained indirect rendering context",
        }
    }
}

/// Classifies a context-creation attempt: a null context or a fired error
/// handler is a creation failure; an indirect context is refused; anything
/// else is usable.
pub fn check_context_result(is_null: bool, error_occurred: bool, is_direct: bool) -> (r: Result<
    (),
    ContextError,
>)
    ensures
        r == (if is_null || error_occurred {
            Err::<(), ContextError>(ContextError::Creation)
        } else if !is_direct {
            Err::<(), ContextError>(ContextError::Indirect)
        } else {
            Ok::<(), ContextError>(())
        }),
{
    if is_null || error_occurred {
        Err(ContextError::Creation)
    } else if !is_direct {
        Err(ContextError::Indirect)
    } else {
        Ok(())
    }
}

/// The decimal digits of a byte value, most significant first, without
/// leading zeros.
pub open spec fn spec_decimal(v: u8) -> Seq<u8> {
    if v >= 100 {
        seq![(48 + v / 100) as u8, (48 + (v / 10) % 10) as u8, (48 + v % 10) as u8]
    } else if v >= 10 {
        seq![(48 + v / 10) as u8, (48 + v % 10) as u8]
    } else {
        seq![(48 + v) as u8]
    }
}

/// The name bytes of the compositor-selection atom for one screen:
/// `_NET_WM_CM_S` followed by the screen index in decimal.
pub open spec fn spec_cm_atom_name(screen: u8) -> Seq<u8> {
    seq![95u8, 78u8, 69u8, 84u8, 95u8, 87u8, 77u8, 95u8, 67u8, 77u8, 95u8, 83u8] + spec_decimal(
        screen,
    )
}

/// Builds the compositor-selection atom name, `_NET_WM_CM_S` plus the
/// screen index, that the compositor must own for a screen.
pub fn cm_atom_name(screen: u8) -> (r: Vec<u8>)
    ensures
        r@ == spec_cm_atom_name(screen),
{
    let mut r: Vec<u8> = Vec::new();
    r.push(95);
    r.push(78);
    r.push(69);
    r.push(84);
    r.push(95);
    r.push(87);
    r.push(77);
    r.push(95);
    r.push(67);
    r.push(77);
    r.push(95);
    r.push(83);
    if screen >= 100 {
        r.push(48 + screen / 100);
        r.push(48 + (screen / 10) % 10);
        r.push(48 + screen % 10);
    } else if screen >= 10 {
        r.push(48 + screen / 10);
        r.push(48 + screen % 10);
    } else {
        r.push(48 + screen);
    }
    proof {
        assert(r@ =~= spec_cm_atom_name(screen));
    }
    r
}

} // verus!
