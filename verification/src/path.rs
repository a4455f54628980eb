//! Relative paths as they travel between devices, and their joining to a root.

use crate::lease::separator_of;
use crate::manifest::Platform;
use crate::text::{
    contains_char, find_char, from_chars, has_prefix, same_bytes, same_chars, split_chars, to_chars,
    upper_chars,
};
use vstd::prelude::*;

verus! {

broadcast use vstd::seq_lib::group_seq_properties;

pub const PARTIAL_FILE_SUFFIX: &'static str = ".fastsync-part";

#[derive(Debug, Clone, Copy, PartialEq, Eq, Structural)]
pub enum PathValidationError {
    Empty,
    Absolute,
    WindowsDrive,
    WindowsUnc,
    Backslash,
    CurrentDirectory,
    ParentDirectory,
    EmptyComponent,
    Nul,
    WindowsInvalidCharacter,
    WindowsTrailingDotOrSpace,
    WindowsReservedName,
    ReservedStagingNamespace,
}

#[derive(Debug, Clone, Copy, PartialEq, Eq, Structural)]
pub enum RelativePathError {
    OutsideRoot,
    NonNormalComponent,
    NonUtf8,
    InvalidWirePath(PathValidationError),
}

/// One component of a native path, as the operating system splits it.
#[derive(Debug, Clone, PartialEq, Eq)]
pub enum PathComponent {
    Prefix(String),
    RootDirectory,
    CurrentDirectory,
    ParentDirectory,
    Normal(String),
    NonUtf8(Vec<u8>),
}

pub open spec fn is_ascii_letter(c: char) -> bool {
    'a' <= c <= 'z' || 'A' <= c <= 'Z'
}

/// A drive letter followed by a colon.
pub open spec fn has_drive_prefix(s: Seq<char>) -> bool {
    s.len() >= 2 && is_ascii_letter(s[0]) && s[1] == ':'
}

/// Control characters and the punctuation that Windows filenames exclude.
pub open spec fn is_windows_invalid(c: char) -> bool {
    (c as u32) < 32 || c == '<' || c == '>' || c == ':' || c == '"' || c == '|' || c == '?' || c
        == '*'
}

pub open spec fn is_reserved_stem(stem: Seq<char>) -> bool {
    ||| stem == seq!['C', 'O', 'N']
    ||| stem == seq!['P', 'R', 'N']
    ||| stem == seq!['A', 'U', 'X']
    ||| stem == seq!['N', 'U', 'L']
    ||| stem.len() == 4 && '1' <= stem[3] <= '9' && (stem.take(3) == seq!['C', 'O', 'M']
        || stem.take(3) == seq!['L', 'P', 'T'])
}

/// The name up to the first dot is a Windows device name in any ASCII case.
pub open spec fn has_reserved_name(component: Seq<char>) -> bool {
    is_reserved_stem(crate::text::ascii_uppercase(crate::text::before_first(component, '.')))
}

pub open spec fn staging_prefix_upper() -> Seq<char> {
    seq!['.', 'F', 'A', 'S', 'T', 'S', 'Y', 'N', 'C', '-', 'S', 'T', 'A', 'G', 'E', '-']
}

/// The component begins with `.fastsync-stage-` in any ASCII case.
pub open spec fn is_staging_name(component: Seq<char>) -> bool {
    component.len() >= 16 && crate::text::ascii_uppercase(component.take(16))
        == staging_prefix_upper()
}

/// The first rule that a single component breaks.
pub open spec fn component_error(component: Seq<char>) -> Option<PathValidationError> {
    if component.len() == 0 {
        Some(PathValidationError::EmptyComponent)
    } else if component == seq!['.'] {
        Some(PathValidationError::CurrentDirectory)
    } else if component == seq!['.', '.'] {
        Some(PathValidationError::ParentDirectory)
    } else if has_drive_prefix(component) {
        Some(PathValidationError::WindowsDrive)
    } else if exists|i: int| 0 <= i < component.len() && is_windows_invalid(component[i]) {
        Some(PathValidationError::WindowsInvalidCharacter)
    } else if component.last() == '.' || component.last() == ' ' {
        Some(PathValidationError::WindowsTrailingDotOrSpace)
    } else if has_reserved_name(component) {
        Some(PathValidationError::WindowsReservedName)
    } else if is_staging_name(component) {
        Some(PathValidationError::ReservedStagingNamespace)
    } else {
        None
    }
}

/// The error of the first component that breaks a rule.
pub open spec fn first_component_error(components: Seq<Seq<char>>) -> Option<PathValidationError>
    decreases components.len(),
{
    if components.len() == 0 {
        None
    } else {
        match first_component_error(components.drop_last()) {
            Some(error) => Some(error),
            None => component_error(components.last()),
        }
    }
}

/// Why `path` may not travel between devices, if anything forbids it.
pub open spec fn wire_path_error(path: Seq<char>) -> Option<PathValidationError> {
    if path.len() == 0 {
        Some(PathValidationError::Empty)
    } else if path.contains('\0') {
        Some(PathValidationError::Nul)
    } else if crate::text::starts_with(path, seq!['/', '/']) || crate::text::starts_with(
        path,
        seq!['\\', '\\'],
    ) {
        Some(PathValidationError::WindowsUnc)
    } else if path[0] == '/' {
        Some(PathValidationError::Absolute)
    } else if path.contains('\\') {
        Some(PathValidationError::Backslash)
    } else {
        first_component_error(crate::text::split(path, '/'))
    }
}

pub open spec fn is_wire_path(path: Seq<char>) -> bool {
    wire_path_error(path) is None
}

/// What a path ends with where a name can follow without a separator: nothing, a
/// separator of the system, or, on Windows, a drive alone.
pub open spec fn takes_name(platform: Platform, path: Seq<char>) -> bool {
    match platform {
        Platform::Posix => path.len() == 0 || path.last() == '/',
        Platform::Windows => path.len() == 0 || path.last() == '/' || path.last() == '\\' || (
        path.len() == 2 && has_drive_prefix(path)),
    }
}

/// `component` below `path`, with one separator of the system between them.
pub open spec fn push_component(
    platform: Platform,
    path: Seq<char>,
    component: Seq<char>,
) -> Seq<char> {
    if takes_name(platform, path) {
        path + component
    } else {
        path.push(separator_of(platform)) + component
    }
}

pub open spec fn join_components(
    platform: Platform,
    root: Seq<char>,
    components: Seq<Seq<char>>,
) -> Seq<char>
    decreases components.len(),
{
    if components.len() == 0 {
        root
    } else {
        push_component(
            platform,
            join_components(platform, root, components.drop_last()),
            components.last(),
        )
    }
}

/// An absolute POSIX path, a drive path or a UNC path.
pub open spec fn is_absolute_somewhere(path: Seq<char>) -> bool {
    ||| path.len() >= 1 && path[0] == '/'
    ||| has_drive_prefix(path) && path.len() >= 3 && (path[2] == '/' || path[2] == '\\')
    ||| crate::text::starts_with(path, seq!['\\', '\\'])
}

pub fn is_ascii_alphabetic(c: char) -> (yes: bool)
    ensures
        yes == is_ascii_letter(c),
{
    ('a' <= c && c <= 'z') || ('A' <= c && c <= 'Z')
}

/// Whether a component begins as the name of a drive does.
pub fn is_windows_drive_component(component: &[char]) -> (yes: bool)
    ensures
        yes == has_drive_prefix(component@),
{
    component.len() >= 2 && is_ascii_alphabetic(component[0]) && component[1] == ':'
}

fn has_windows_invalid_character(component: &[char]) -> (yes: bool)
    ensures
        yes == exists|i: int| 0 <= i < component.len() && is_windows_invalid(component@[i]),
{
    let mut i: usize = 0;
    while i < component.len()
        invariant
            i <= component.len(),
            forall|k: int| 0 <= k < i ==> !is_windows_invalid(component@[k]),
        decreases component.len() - i,
    {
        let c = component[i];
        if (c as u32) < 32 || c == '<' || c == '>' || c == ':' || c == '"' || c == '|' || c == '?'
            || c == '*' {
            assert(is_windows_invalid(component@[i as int]));
            return true;
        }
        i += 1;
    }
    false
}

/// Whether a component names a device on Windows.
pub fn is_windows_reserved_name(component: &[char]) -> (yes: bool)
    ensures
        yes == has_reserved_name(component@),
{
    let end = find_char(component, '.');
    let stem = upper_chars(vstd::slice::slice_subrange(component, 0, end));
    assert(component@.subrange(0, end as int) =~= component@.take(end as int));
    if stem.len() == 3 {
        same_chars(&stem, &['C', 'O', 'N']) || same_chars(&stem, &['P', 'R', 'N']) || same_chars(
            &stem,
            &['A', 'U', 'X'],
        ) || same_chars(&stem, &['N', 'U', 'L'])
    } else if stem.len() == 4 {
        let head = vstd::slice::slice_subrange(stem.as_slice(), 0, 3);
        assert(stem@.subrange(0, 3) =~= stem@.take(3));
        '1' <= stem[3] && stem[3] <= '9' && (same_chars(head, &['C', 'O', 'M']) || same_chars(
            head,
            &['L', 'P', 'T'],
        ))
    } else {
        false
    }
}

fn is_staging_chars(component: &[char]) -> (yes: bool)
    ensures
        yes == is_staging_name(component@),
{
    if component.len() < 16 {
        return false;
    }
    let head = upper_chars(vstd::slice::slice_subrange(component, 0, 16));
    assert(component@.subrange(0, 16) =~= component@.take(16));
    same_chars(
        &head,
        &['.', 'F', 'A', 'S', 'T', 'S', 'Y', 'N', 'C', '-', 'S', 'T', 'A', 'G', 'E', '-'],
    )
}

/// Whether a name lies in the namespace of staging directories.
pub fn is_fastsync_staging_component(component: &str) -> (yes: bool)
    ensures
        yes == is_staging_name(component@),
{
    is_staging_chars(&to_chars(component))
}

fn check_component(component: &[char]) -> (error: Option<PathValidationError>)
    ensures
        error == component_error(component@),
{
    assert(['.']@ =~= seq!['.']);
    assert(['.', '.']@ =~= seq!['.', '.']);
    if component.len() == 0 {
        Some(PathValidationError::EmptyComponent)
    } else if same_chars(component, &['.']) {
        Some(PathValidationError::CurrentDirectory)
    } else if same_chars(component, &['.', '.']) {
        Some(PathValidationError::ParentDirectory)
    } else if is_windows_drive_component(component) {
        Some(PathValidationError::WindowsDrive)
    } else if has_windows_invalid_character(component) {
        Some(PathValidationError::WindowsInvalidCharacter)
    } else if component[component.len() - 1] == '.' || component[component.len() - 1] == ' ' {
        Some(PathValidationError::WindowsTrailingDotOrSpace)
    } else if is_windows_reserved_name(component) {
        Some(PathValidationError::WindowsReservedName)
    } else if is_staging_chars(component) {
        Some(PathValidationError::ReservedStagingNamespace)
    } else {
        None
    }
}

fn check_wire_chars(path: &[char]) -> (error: Option<PathValidationError>)
    ensures
        error == wire_path_error(path@),
{
    if path.len() == 0 {
        return Some(PathValidationError::Empty);
    }
    if contains_char(path, '\0') {
        return Some(PathValidationError::Nul);
    }
    if has_prefix(path, &['/', '/']) || has_prefix(path, &['\\', '\\']) {
        return Some(PathValidationError::WindowsUnc);
    }
    if path[0] == '/' {
        return Some(PathValidationError::Absolute);
    }
    if contains_char(path, '\\') {
        return Some(PathValidationError::Backslash);
    }
    let components = split_chars(path, '/');
    let ghost pieces = crate::text::split(path@, '/');
    let mut i: usize = 0;
    while i < components.len()
        invariant
            i <= components.len(),
            components.len() == pieces.len(),
            forall|k: int| 0 <= k < components.len() ==> (#[trigger] components[k])@ == pieces[k],
            first_component_error(pieces.take(i as int)) is None,
            pieces == crate::text::split(path@, '/'),
            wire_path_error(path@) == first_component_error(pieces),
        decreases components.len() - i,
    {
        assert(pieces.take(i + 1).drop_last() =~= pieces.take(i as int));
        let error = check_component(&components[i]);
        if error.is_some() {
            proof {
                lemma_first_error_is_kept(pieces, i + 1);
            }
            return error;
        }
        i += 1;
    }
    assert(pieces.take(i as int) =~= pieces);
    None
}

proof fn lemma_first_error_is_kept(components: Seq<Seq<char>>, n: int)
    requires
        0 <= n <= components.len(),
        first_component_error(components.take(n)) is Some,
    ensures
        first_component_error(components) == first_component_error(components.take(n)),
    decreases components.len(),
{
    if n == components.len() {
        assert(components.take(n) =~= components);
    } else {
        assert(components.drop_last().take(n) =~= components.take(n));
        lemma_first_error_is_kept(components.drop_last(), n);
    }
}

/// Accepts a path that can name the same file on every supported system.
pub fn validate_wire_relative_path(path: &str) -> (result: Result<(), PathValidationError>)
    ensures
        match result {
            Ok(_) => is_wire_path(path@),
            Err(error) => wire_path_error(path@) == Some(error),
        },
{
    match check_wire_chars(&to_chars(path)) {
        Some(error) => Err(error),
        None => Ok(()),
    }
}

pub(crate) fn append_component(platform: Platform, path: &mut Vec<char>, component: &Vec<char>)
    ensures
        final(path)@ == push_component(platform, old(path)@, component@),
{
    let length: usize = path.len();
    match platform {
        Platform::Posix => {
            if length > 0 && path[length - 1] != '/' {
                path.push('/');
            }
        },
        Platform::Windows => {
            let drive = length == 2 && is_windows_drive_component(path);
            if length > 0 && path[length - 1] != '/' && path[length - 1] != '\\' && !drive {
                path.push('\\');
            }
        },
    }
    path.extend_from_slice(component.as_slice());
    assert(path@ =~= push_component(platform, old(path)@, component@));
}

/// Validates an untrusted wire path and takes it apart: the names that lead from a
/// root to what it names, for a caller whose root is no text.
pub fn wire_names(wire_relative_path: &str) -> (result: Result<Vec<String>, PathValidationError>)
    ensures
        match result {
            Ok(names) => is_wire_path(wire_relative_path@) && crate::text::views(names@)
                == crate::text::split(wire_relative_path@, '/'),
            Err(error) => wire_path_error(wire_relative_path@) == Some(error),
        },
{
    let path = to_chars(wire_relative_path);
    if let Some(error) = check_wire_chars(&path) {
        return Err(error);
    }
    let components = split_chars(&path, '/');
    let ghost pieces = crate::text::split(wire_relative_path@, '/');
    let mut names: Vec<String> = Vec::new();
    let mut i: usize = 0;
    while i < components.len()
        invariant
            i <= components.len(),
            components.len() == pieces.len(),
            forall|k: int| 0 <= k < components.len() ==> (#[trigger] components[k])@ == pieces[k],
            names@.len() == i,
            forall|k: int| 0 <= k < i ==> (#[trigger] names@[k])@ == pieces[k],
        decreases components.len() - i,
    {
        names.push(from_chars(&components[i]));
        i += 1;
    }
    assert(crate::text::views(names@) =~= pieces);
    Ok(names)
}

/// Validates an untrusted wire path and joins its components to `root`.
///
/// This is a lexical defence against traversal; symbolic links below `root`
/// are a matter for the caller.
pub fn safe_join(platform: Platform, root: &str, wire_relative_path: &str) -> (result: Result<
    String,
    PathValidationError,
>)
    ensures
        match result {
            Ok(joined) => is_wire_path(wire_relative_path@) && joined@ == join_components(
                platform,
                root@,
                crate::text::split(wire_relative_path@, '/'),
            ),
            Err(error) => wire_path_error(wire_relative_path@) == Some(error),
        },
{
    let path = to_chars(wire_relative_path);
    if let Some(error) = check_wire_chars(&path) {
        return Err(error);
    }
    let components = split_chars(&path, '/');
    let ghost pieces = crate::text::split(wire_relative_path@, '/');
    let mut joined = to_chars(root);
    let mut i: usize = 0;
    assert(pieces.take(0) =~= Seq::<Seq<char>>::empty());
    while i < components.len()
        invariant
            i <= components.len(),
            components.len() == pieces.len(),
            forall|k: int| 0 <= k < components.len() ==> (#[trigger] components[k])@ == pieces[k],
            joined@ == join_components(platform, root@, pieces.take(i as int)),
        decreases components.len() - i,
    {
        assert(pieces.take(i + 1).drop_last() =~= pieces.take(i as int));
        append_component(platform, &mut joined, &components[i]);
        i += 1;
    }
    assert(pieces.take(i as int) =~= pieces);
    Ok(from_chars(&joined))
}

/// Accepts an absolute path written for either a POSIX or a Windows receiver.
pub fn is_receiver_absolute_path(path: &str) -> (yes: bool)
    ensures
        yes == is_absolute_somewhere(path@),
{
    let chars = to_chars(path);
    (chars.len() >= 1 && chars[0] == '/') || (is_windows_drive_component(&chars) && chars.len() >= 3
        && (chars[2] == '/' || chars[2] == '\\')) || has_prefix(&chars, &['\\', '\\'])
}

pub open spec fn same_path_component(a: PathComponent, b: PathComponent) -> bool {
    match (a, b) {
        (PathComponent::Prefix(x), PathComponent::Prefix(y)) => x@ == y@,
        (PathComponent::RootDirectory, PathComponent::RootDirectory) => true,
        (PathComponent::CurrentDirectory, PathComponent::CurrentDirectory) => true,
        (PathComponent::ParentDirectory, PathComponent::ParentDirectory) => true,
        (PathComponent::Normal(x), PathComponent::Normal(y)) => x@ == y@,
        (PathComponent::NonUtf8(x), PathComponent::NonUtf8(y)) => x@ == y@,
        _ => false,
    }
}

/// `path` lies at or below `root`.
pub open spec fn is_below(root: Seq<PathComponent>, path: Seq<PathComponent>) -> bool {
    root.len() <= path.len() && forall|i: int|
        0 <= i < root.len() ==> same_path_component(#[trigger] root[i], path[i])
}

/// What the first component that cannot travel is, if there is one.
pub open spec fn untransferable(components: Seq<PathComponent>) -> Option<RelativePathError>
    decreases components.len(),
{
    if components.len() == 0 {
        None
    } else {
        match untransferable(components.drop_last()) {
            Some(error) => Some(error),
            None => match components.last() {
                PathComponent::Normal(_) => None,
                PathComponent::NonUtf8(_) => Some(RelativePathError::NonUtf8),
                _ => Some(RelativePathError::NonNormalComponent),
            },
        }
    }
}

pub open spec fn component_names(components: Seq<PathComponent>) -> Seq<Seq<char>> {
    Seq::new(
        components.len(),
        |i: int|
            match components[i] {
                PathComponent::Normal(name) => name@,
                _ => Seq::<char>::empty(),
            },
    )
}

/// The wire form of `path` below `root`, or why it has none.
pub open spec fn wire_form(root: Seq<PathComponent>, path: Seq<PathComponent>) -> Result<
    Seq<char>,
    RelativePathError,
> {
    if !is_below(root, path) {
        Err(RelativePathError::OutsideRoot)
    } else {
        let relative = path.skip(root.len() as int);
        match untransferable(relative) {
            Some(error) => Err(error),
            None => {
                let wire = crate::text::join(component_names(relative), '/');
                match wire_path_error(wire) {
                    Some(error) => Err(RelativePathError::InvalidWirePath(error)),
                    None => Ok(wire),
                }
            },
        }
    }
}

fn path_components_equal(a: &PathComponent, b: &PathComponent) -> (same: bool)
    ensures
        same == same_path_component(*a, *b),
{
    match (a, b) {
        (PathComponent::Prefix(x), PathComponent::Prefix(y)) => *x == *y,
        (PathComponent::RootDirectory, PathComponent::RootDirectory) => true,
        (PathComponent::CurrentDirectory, PathComponent::CurrentDirectory) => true,
        (PathComponent::ParentDirectory, PathComponent::ParentDirectory) => true,
        (PathComponent::Normal(x), PathComponent::Normal(y)) => *x == *y,
        (PathComponent::NonUtf8(x), PathComponent::NonUtf8(y)) => same_bytes(x, y),
        _ => false,
    }
}

/// Whether `path` lies at or below `root`.
pub fn has_root(root: &[PathComponent], path: &[PathComponent]) -> (below: bool)
    ensures
        below == is_below(root@, path@),
{
    if root.len() > path.len() {
        return false;
    }
    let mut i: usize = 0;
    while i < root.len()
        invariant
            i <= root.len() <= path.len(),
            forall|k: int| 0 <= k < i ==> same_path_component(#[trigger] root@[k], path@[k]),
        decreases root.len() - i,
    {
        if !path_components_equal(&root[i], &path[i]) {
            assert(!same_path_component(root@[i as int], path@[i as int]));
            return false;
        }
        i += 1;
    }
    true
}

proof fn lemma_untransferable_is_kept(components: Seq<PathComponent>, n: int)
    requires
        0 <= n <= components.len(),
        untransferable(components.take(n)) is Some,
    ensures
        untransferable(components) == untransferable(components.take(n)),
    decreases components.len(),
{
    if n == components.len() {
        assert(components.take(n) =~= components);
    } else {
        assert(components.drop_last().take(n) =~= components.take(n));
        lemma_untransferable_is_kept(components.drop_last(), n);
    }
}

/// Converts a path below `root` to the UTF-8, forward-slash wire representation.
pub fn to_wire_relative_path(root: &[PathComponent], path: &[PathComponent]) -> (result: Result<
    String,
    RelativePathError,
>)
    ensures
        match result {
            Ok(wire) => wire_form(root@, path@) == Ok::<Seq<char>, RelativePathError>(wire@),
            Err(error) => wire_form(root@, path@) == Err::<Seq<char>, RelativePathError>(error),
        },
{
    if !has_root(root, path) {
        return Err(RelativePathError::OutsideRoot);
    }
    let ghost relative = path@.skip(root@.len() as int);
    let mut wire: Vec<char> = Vec::new();
    let mut i: usize = root.len();
    assert(relative.take(0) =~= Seq::<PathComponent>::empty());
    while i < path.len()
        invariant
            root.len() <= i <= path.len(),
            is_below(root@, path@),
            relative == path@.skip(root@.len() as int),
            untransferable(relative.take(i - root.len())) is None,
            wire@ == crate::text::join(component_names(relative.take(i - root.len())), '/'),
        decreases path.len() - i,
    {
        let ghost n = i - root.len();
        assert(relative.take(n + 1).drop_last() =~= relative.take(n));
        assert(relative.take(n + 1).last() == path@[i as int]);
        proof {
            if untransferable(relative.take(n + 1)) is Some {
                lemma_untransferable_is_kept(relative, n + 1);
            }
        }
        match &path[i] {
            PathComponent::Normal(name) => {
                let ghost names = component_names(relative.take(n + 1));
                assert(names.drop_last() =~= component_names(relative.take(n)));
                if i > root.len() {
                    wire.push('/');
                }
                wire.extend_from_slice(to_chars(name).as_slice());
                assert(wire@ =~= crate::text::join(names, '/'));
            },
            PathComponent::NonUtf8(_) => {
                return Err(RelativePathError::NonUtf8);
            },
            _ => {
                return Err(RelativePathError::NonNormalComponent);
            },
        }
        i += 1;
    }
    assert(relative.take(i - root.len()) =~= relative);
    match check_wire_chars(&wire) {
        Some(error) => Err(RelativePathError::InvalidWirePath(error)),
        None => Ok(from_chars(&wire)),
    }
}

/// The sibling staging path used while `destination` is being transferred.
pub fn partial_file_path(destination: &str) -> (partial: String)
    ensures
        partial@ == destination@ + PARTIAL_FILE_SUFFIX@,
{
    let mut partial = destination.to_owned();
    partial.append(PARTIAL_FILE_SUFFIX);
    partial
}

/// The text is `upper` in any case of the Latin letters.
pub open spec fn reads(text: Seq<char>, upper: Seq<char>) -> bool {
    &&& text.len() == upper.len()
    &&& forall|k: int|
        0 <= k < upper.len() ==> #[trigger] text[k] == upper[k] || ('A' <= upper[k] <= 'Z'
            && text[k] as u32 == upper[k] as u32 + 32)
}

/// The text is a device name of Windows, in any case.
pub open spec fn is_device(text: Seq<char>) -> bool {
    ||| reads(text, seq!['C', 'O', 'N'])
    ||| reads(text, seq!['P', 'R', 'N'])
    ||| reads(text, seq!['A', 'U', 'X'])
    ||| reads(text, seq!['N', 'U', 'L'])
    ||| text.len() == 4 && '1' <= text[3] <= '9' && (reads(text.take(3), seq!['C', 'O', 'M'])
        || reads(text.take(3), seq!['L', 'P', 'T']))
}

/// A name that a file can have on every system: it is not empty, has no control
/// character and none of the punctuation that Windows excludes, ends neither in a dot
/// nor in a space, is no device name up to a dot before which there is none, and does
/// not begin as a staging directory does.
pub open spec fn is_common_name(name: Seq<char>) -> bool {
    &&& name.len() > 0
    &&& forall|i: int|
        0 <= i < name.len() ==> (#[trigger] name[i]) as u32 >= 32 && name[i] != '<' && name[i]
            != '>' && name[i] != ':' && name[i] != '"' && name[i] != '|' && name[i] != '?'
            && name[i] != '*'
    &&& name[name.len() - 1] != '.' && name[name.len() - 1] != ' '
    &&& forall|end: int|
        0 <= end <= name.len() && (end == name.len() || name[end] == '.') && (forall|k: int|
            0 <= k < end ==> #[trigger] name[k] != '.') ==> !is_device(#[trigger] name.take(end))
    &&& !(name.len() >= 16 && reads(
        name.take(16),
        seq!['.', 'F', 'A', 'S', 'T', 'S', 'Y', 'N', 'C', '-', 'S', 'T', 'A', 'G', 'E', '-'],
    ))
}

proof fn lemma_upper_reads(text: Seq<char>, upper: Seq<char>)
    requires
        forall|k: int| 0 <= k < upper.len() ==> !('a' <= #[trigger] upper[k] <= 'z'),
    ensures
        crate::text::ascii_uppercase(text) == upper <==> reads(text, upper),
{
    let raised = crate::text::ascii_uppercase(text);
    if reads(text, upper) {
        assert forall|k: int| 0 <= k < upper.len() implies raised[k] == upper[k] by {
            assert(text[k] == upper[k] || ('A' <= upper[k] <= 'Z' && text[k] as u32
                == upper[k] as u32 + 32));
        }
        assert(raised =~= upper);
    }
    if raised == upper {
        assert forall|k: int| 0 <= k < upper.len() implies #[trigger] text[k] == upper[k] || ('A'
            <= upper[k] <= 'Z' && text[k] as u32 == upper[k] as u32 + 32) by {
            assert(raised[k] == upper[k]);
        }
    }
}

proof fn lemma_reserved_is_device(text: Seq<char>)
    ensures
        is_reserved_stem(crate::text::ascii_uppercase(text)) <==> is_device(text),
{
    let raised = crate::text::ascii_uppercase(text);
    lemma_upper_reads(text, seq!['C', 'O', 'N']);
    lemma_upper_reads(text, seq!['P', 'R', 'N']);
    lemma_upper_reads(text, seq!['A', 'U', 'X']);
    lemma_upper_reads(text, seq!['N', 'U', 'L']);
    lemma_upper_reads(text.take(3), seq!['C', 'O', 'M']);
    lemma_upper_reads(text.take(3), seq!['L', 'P', 'T']);
    if text.len() == 4 {
        assert(crate::text::ascii_uppercase(text.take(3)) =~= raised.take(3));
        assert('1' <= raised[3] <= '9' <==> '1' <= text[3] <= '9');
    }
}

proof fn lemma_first_index(s: Seq<char>, c: char)
    ensures
        0 <= crate::text::first_index_of(s, c) <= s.len(),
        crate::text::first_index_of(s, c) < s.len() ==> s[crate::text::first_index_of(s, c)] == c,
        forall|k: int| 0 <= k < crate::text::first_index_of(s, c) ==> s[k] != c,
    decreases s.len(),
{
    if s.len() > 0 && s[0] != c {
        lemma_first_index(s.skip(1), c);
        let end = crate::text::first_index_of(s, c);
        assert forall|k: int| 0 <= k < end implies s[k] != c by {
            if k > 0 {
                assert(s.skip(1)[k - 1] == s[k]);
            }
        }
    }
}

/// A component is accepted exactly if it is a name that a file can have on every
/// system.
pub proof fn law_common_names_are_accepted(component: Seq<char>)
    ensures
        component_error(component) is None <==> is_common_name(component),
{
    if component.len() > 0 {
        let end = crate::text::first_index_of(component, '.');
        lemma_first_index(component, '.');
        lemma_reserved_is_device(component.take(end));
        let prefix = seq![
            '.', 'F', 'A', 'S', 'T', 'S', 'Y', 'N', 'C', '-', 'S', 'T', 'A', 'G', 'E', '-',
        ];
        lemma_upper_reads(component.take(16), prefix);
        assert(staging_prefix_upper() =~= prefix);
        let last = component[component.len() - 1];
        assert(component.last() == last);
        if component =~= seq!['.'] || component =~= seq!['.', '.'] {
            assert(last == '.');
        }
        if component == seq!['.'] || component == seq!['.', '.'] {
            assert(last == '.');
        }
        if is_common_name(component) {
            assert forall|i: int| 0 <= i < component.len() implies !is_windows_invalid(
                component[i],
            ) by {}
            if has_drive_prefix(component) {
                assert(component[1] == ':');
            }
            assert(!is_device(component.take(end)));
        }
        if component_error(component) is None {
            assert forall|i: int| 0 <= i < component.len() implies (#[trigger] component[i]) as u32
                >= 32 && component[i] != '<' && component[i] != '>' && component[i] != ':'
                && component[i] != '"' && component[i] != '|' && component[i] != '?'
                && component[i] != '*' by {
                assert(!is_windows_invalid(component[i]));
            }
            assert forall|e: int|
                0 <= e <= component.len() && (e == component.len() || component[e] == '.') && (
                forall|k: int| 0 <= k < e ==> #[trigger] component[k] != '.') implies !is_device(
                #[trigger] component.take(e),
            ) by {
                if e < end {
                    assert(component[e] != '.');
                }
                if end < e {
                    assert(component[end] == '.');
                }
                assert(e == end);
            }
        }
    }
}

proof fn lemma_no_first_error(components: Seq<Seq<char>>)
    requires
        forall|i: int|
            0 <= i < components.len() ==> component_error(#[trigger] components[i]) is None,
    ensures
        first_component_error(components) is None,
    decreases components.len(),
{
    if components.len() > 0 {
        let shorter = components.drop_last();
        assert forall|i: int| 0 <= i < shorter.len() implies component_error(
            #[trigger] shorter[i],
        ) is None by {
            assert(shorter[i] == components[i]);
        }
        lemma_no_first_error(shorter);
        assert(components[components.len() - 1] == components.last());
    }
}

/// A path may travel exactly if it is relative, holds no NUL and no backslash, and
/// every name between its slashes is one that a file can have on every system.
pub proof fn law_what_may_travel(path: Seq<char>)
    ensures
        is_wire_path(path) <==> {
            &&& path.len() > 0
            &&& path[0] != '/'
            &&& forall|i: int|
                0 <= i < path.len() ==> #[trigger] path[i] != '\0' && path[i] != '\\'
            &&& forall|i: int|
                0 <= i < crate::text::split(path, '/').len() ==> is_common_name(
                    #[trigger] crate::text::split(path, '/')[i],
                )
        },
{
    let pieces = crate::text::split(path, '/');
    if is_wire_path(path) {
        assert forall|i: int| 0 <= i < path.len() implies #[trigger] path[i] != '\0' && path[i]
            != '\\' by {
            assert(path.contains(path[i]));
        }
        assert forall|i: int| 0 <= i < pieces.len() implies is_common_name(
            #[trigger] pieces[i],
        ) by {
            lemma_no_error_anywhere(pieces, i);
            law_common_names_are_accepted(pieces[i]);
        }
    }
    if path.len() > 0 && path[0] != '/' && (forall|i: int|
        0 <= i < path.len() ==> #[trigger] path[i] != '\0' && path[i] != '\\') && (forall|i: int|
        0 <= i < pieces.len() ==> is_common_name(#[trigger] pieces[i])) {
        assert forall|i: int| 0 <= i < pieces.len() implies component_error(
            #[trigger] pieces[i],
        ) is None by {
            law_common_names_are_accepted(pieces[i]);
        }
        lemma_no_first_error(pieces);
        if crate::text::starts_with(path, seq!['/', '/']) {
            assert(path.take(2)[0] == '/');
        }
        if crate::text::starts_with(path, seq!['\\', '\\']) {
            assert(path.take(2)[0] == '\\');
        }
    }
}

/// A hidden name travels like any other: where a dot comes first and neither a dot nor
/// the letter of the staging directories after it, only the characters and the end of
/// the name count.
pub proof fn law_hidden_names_are_accepted(component: Seq<char>)
    requires
        component.len() >= 2,
        component[0] == '.',
        component[1] != '.' && component[1] != 'f' && component[1] != 'F',
    ensures
        component_error(component) is None <==> {
            &&& component[component.len() - 1] != '.' && component[component.len() - 1] != ' '
            &&& forall|i: int|
                0 <= i < component.len() ==> (#[trigger] component[i]) as u32 >= 32
                    && component[i] != '<' && component[i] != '>' && component[i] != ':'
                    && component[i] != '"' && component[i] != '|' && component[i] != '?'
                    && component[i] != '*'
        },
{
    law_common_names_are_accepted(component);
    assert forall|end: int|
        0 <= end <= component.len() && (end == component.len() || component[end] == '.') && (
        forall|k: int| 0 <= k < end ==> #[trigger] component[k] != '.') implies !is_device(
        #[trigger] component.take(end),
    ) by {
        if end > 0 {
            assert(component[0] == '.');
        }
        assert(component.take(end).len() == 0);
    }
    if component.len() >= 16 {
        assert(component.take(16)[1] == component[1]);
        let prefix = seq![
            '.', 'F', 'A', 'S', 'T', 'S', 'Y', 'N', 'C', '-', 'S', 'T', 'A', 'G', 'E', '-',
        ];
        if reads(component.take(16), prefix) {
            assert(component.take(16)[1] == prefix[1] || component.take(16)[1] as u32
                == prefix[1] as u32 + 32);
        }
    }
}

proof fn lemma_first_error_has_a_place(components: Seq<Seq<char>>) -> (place: int)
    requires
        first_component_error(components) is Some,
    ensures
        0 <= place < components.len(),
        component_error(components[place]) == first_component_error(components),
        forall|k: int| 0 <= k < place ==> component_error(#[trigger] components[k]) is None,
    decreases components.len(),
{
    let shorter = components.drop_last();
    if first_component_error(shorter) is Some {
        let place = lemma_first_error_has_a_place(shorter);
        assert forall|k: int| 0 <= k < place implies component_error(
            #[trigger] components[k],
        ) is None by {
            assert(shorter[k] == components[k]);
        }
        place
    } else {
        assert forall|k: int| 0 <= k < components.len() - 1 implies component_error(
            #[trigger] components[k],
        ) is None by {
            lemma_no_error_anywhere(shorter, k);
            assert(shorter[k] == components[k]);
        }
        components.len() - 1
    }
}

/// A refusal names a rule that the path breaks, and for a component, the first one that
/// breaks any.
pub proof fn law_refusals_name_the_broken_rule(path: Seq<char>)
    requires
        !is_wire_path(path),
    ensures
        ({
            let pieces = crate::text::split(path, '/');
            let error = wire_path_error(path)->0;
            match error {
                PathValidationError::Empty => path.len() == 0,
                PathValidationError::Nul => path.contains('\0'),
                PathValidationError::WindowsUnc => path.len() >= 2 && path[0] == path[1] && (
                path[0] == '/' || path[0] == '\\'),
                PathValidationError::Absolute => path[0] == '/' && (path.len() == 1 || path[1]
                    != '/'),
                PathValidationError::Backslash => path[0] != '/' && path.contains('\\'),
                _ => exists|i: int|
                    0 <= i < pieces.len() && (forall|k: int|
                        0 <= k < i ==> is_common_name(#[trigger] pieces[k])) && {
                        let name = #[trigger] pieces[i];
                        match error {
                            PathValidationError::EmptyComponent => name.len() == 0,
                            PathValidationError::CurrentDirectory => name == seq!['.'],
                            PathValidationError::ParentDirectory => name == seq!['.', '.'],
                            PathValidationError::WindowsDrive => name.len() >= 2 && name[1] == ':'
                                && ('a' <= name[0] <= 'z' || 'A' <= name[0] <= 'Z'),
                            PathValidationError::WindowsInvalidCharacter => exists|k: int|
                                0 <= k < name.len() && (((#[trigger] name[k]) as u32) < 32 || name[k] == '<'
                                    || name[k] == '>' || name[k] == ':' || name[k] == '"'
                                    || name[k] == '|' || name[k] == '?' || name[k] == '*'),
                            PathValidationError::WindowsTrailingDotOrSpace => name.len() > 0 && (
                            name[name.len() - 1] == '.' || name[name.len() - 1] == ' '),
                            PathValidationError::WindowsReservedName => exists|end: int|
                                0 <= end <= name.len() && (end == name.len() || name[end] == '.')
                                    && is_device(#[trigger] name.take(end)),
                            PathValidationError::ReservedStagingNamespace => name.len() >= 16
                                && reads(
                                name.take(16),
                                seq!['.', 'F', 'A', 'S', 'T', 'S', 'Y', 'N', 'C', '-', 'S', 'T', 'A', 'G', 'E', '-'],
                            ),
                            _ => false,
                        }
                    },
            }
        }),
{
    let pieces = crate::text::split(path, '/');
    let error = wire_path_error(path)->0;
    if crate::text::starts_with(path, seq!['/', '/']) {
        assert(path.take(2)[0] == '/' && path.take(2)[1] == '/');
    } else if path.len() >= 2 && path[0] == '/' && path[1] == '/' {
        assert(path.take(2) =~= seq!['/', '/']);
    }
    if crate::text::starts_with(path, seq!['\\', '\\']) {
        assert(path.take(2)[0] == '\\' && path.take(2)[1] == '\\');
    }
    if path.len() > 0 && !path.contains('\0') && path[0] != '/' && !path.contains('\\') {
        if crate::text::starts_with(path, seq!['\\', '\\']) {
            assert(path.contains(path[0]));
        }
        let place = lemma_first_error_has_a_place(pieces);
        let name = pieces[place];
        assert forall|k: int| 0 <= k < place implies is_common_name(#[trigger] pieces[k]) by {
            law_common_names_are_accepted(pieces[k]);
        }
        if error == PathValidationError::WindowsInvalidCharacter {
            assert(component_error(name) == Some(error));
            let k = choose|k: int| 0 <= k < name.len() && is_windows_invalid(name[k]);
            assert(is_windows_invalid(name[k]));
            assert((name[k] as u32) < 32 || name[k] == '<' || name[k] == '>' || name[k] == ':' || name[k]
                == '"' || name[k] == '|' || name[k] == '?' || name[k] == '*');
        }
        if error == PathValidationError::WindowsReservedName {
            let end = crate::text::first_index_of(name, '.');
            lemma_first_index(name, '.');
            lemma_reserved_is_device(name.take(end));
        }
        if error == PathValidationError::ReservedStagingNamespace {
            let prefix = seq![
                '.', 'F', 'A', 'S', 'T', 'S', 'Y', 'N', 'C', '-', 'S', 'T', 'A', 'G', 'E', '-',
            ];
            lemma_upper_reads(name.take(16), prefix);
            assert(staging_prefix_upper() =~= prefix);
        }
    }
}

/// Every component of an accepted path keeps every rule for components.
pub proof fn law_wire_components_keep_the_rules(path: Seq<char>, i: int)
    requires
        is_wire_path(path),
        0 <= i < crate::text::split(path, '/').len(),
    ensures
        component_error(crate::text::split(path, '/')[i]) is None,
{
    lemma_no_error_anywhere(crate::text::split(path, '/'), i);
}

proof fn lemma_no_error_anywhere(components: Seq<Seq<char>>, i: int)
    requires
        first_component_error(components) is None,
        0 <= i < components.len(),
    ensures
        component_error(components[i]) is None,
    decreases components.len(),
{
    if i < components.len() - 1 {
        lemma_no_error_anywhere(components.drop_last(), i);
    }
}

proof fn lemma_join_components(platform: Platform, root: Seq<char>, components: Seq<Seq<char>>)
    requires
        !takes_name(platform, root),
        components.len() > 0,
        forall|i: int|
            0 <= i < components.len() ==> (#[trigger] components[i]).len() > 0
                && !components[i].contains('/') && !components[i].contains('\\'),
    ensures
        join_components(platform, root, components) == root.push(separator_of(platform))
            + crate::text::join(components, separator_of(platform)),
        !takes_name(platform, join_components(platform, root, components)),
    decreases components.len(),
{
    let separator = separator_of(platform);
    let shorter = components.drop_last();
    let last = components.last();
    assert(components[components.len() - 1] == last);
    assert(last.contains(last[last.len() - 1]));
    if components.len() == 1 {
        assert(join_components(platform, root, shorter) == root);
        assert(join_components(platform, root, components) =~= root.push(separator)
            + components[0]);
    } else {
        assert forall|i: int| 0 <= i < shorter.len() implies (#[trigger] shorter[i]).len() > 0
            && !shorter[i].contains('/') && !shorter[i].contains('\\') by {
            assert(shorter[i] == components[i]);
        }
        lemma_join_components(platform, root, shorter);
        assert(join_components(platform, root, components) =~= root.push(separator)
            + crate::text::join(components, separator));
    }
}

/// Joining an accepted path to a root only appends a separator and the names of
/// the path with separators between them: the result lies below the root.
pub proof fn law_joined_path_stays_below_root(platform: Platform, root: Seq<char>, path: Seq<char>)
    requires
        is_wire_path(path),
        !takes_name(platform, root),
    ensures
        ({
            let separator = separator_of(platform);
            let pieces = crate::text::split(path, '/');
            let joined = join_components(platform, root, pieces);
            &&& joined == root.push(separator) + crate::text::join(pieces, separator)
            &&& platform is Posix ==> joined == root.push('/') + path
            &&& crate::text::starts_with(joined, root.push(separator))
        }),
{
    let separator = separator_of(platform);
    let pieces = crate::text::split(path, '/');
    crate::text::lemma_split_nonempty(path, '/');
    crate::text::law_split_pieces_lack_separator(path, '/');
    crate::text::law_join_restores_split(path, '/');
    assert forall|i: int| 0 <= i < pieces.len() implies (#[trigger] pieces[i]).len() > 0
        && !pieces[i].contains('/') && !pieces[i].contains('\\') by {
        law_wire_components_keep_the_rules(path, i);
        crate::text::lemma_split_keeps_characters(path, '/', i);
    }
    lemma_join_components(platform, root, pieces);
    let joined = join_components(platform, root, pieces);
    assert(joined.take(root.push(separator).len() as int) =~= root.push(separator));
}

/// No component of an accepted path walks up, stays in place or is empty, and
/// none holds a separator of any system.
pub proof fn law_wire_path_never_escapes(path: Seq<char>, i: int)
    requires
        is_wire_path(path),
        0 <= i < crate::text::split(path, '/').len(),
    ensures
        crate::text::split(path, '/')[i] != seq!['.', '.'],
        crate::text::split(path, '/')[i] != seq!['.'],
        crate::text::split(path, '/')[i].len() > 0,
        !crate::text::split(path, '/')[i].contains('/'),
        !path.contains('\\'),
        path[0] != '/',
{
    law_wire_components_keep_the_rules(path, i);
    crate::text::law_split_pieces_lack_separator(path, '/');
}

/// The wire form of a native path names the components below the root, so that
/// joining it to another root walks the same names.
pub proof fn law_wire_form_keeps_names(root: Seq<PathComponent>, path: Seq<PathComponent>)
    requires
        wire_form(root, path) is Ok,
        forall|i: int|
            0 <= i < path.len() ==> (#[trigger] path[i] matches PathComponent::Normal(name)
                ==> !name@.contains('/')),
    ensures
        crate::text::split(wire_form(root, path)->Ok_0, '/') == component_names(
            path.skip(root.len() as int),
        ),
{
    let relative = path.skip(root.len() as int);
    let names = component_names(relative);
    if names.len() == 0 {
        assert(crate::text::join(names, '/') =~= Seq::<char>::empty());
    }
    assert forall|i: int| 0 <= i < names.len() implies !(#[trigger] names[i]).contains('/') by {
        assert(relative[i] == path[i + root.len()]);
    }
    crate::text::law_split_restores_join(names, '/');
}

proof fn lemma_transferable_is_normal(components: Seq<PathComponent>, i: int)
    requires
        untransferable(components) is None,
        0 <= i < components.len(),
    ensures
        components[i] is Normal,
    decreases components.len(),
{
    if i < components.len() - 1 {
        lemma_transferable_is_normal(components.drop_last(), i);
    }
}

/// Native paths with one wire form are the same, component for component.
pub proof fn law_wire_forms_tell_paths_apart(
    root: Seq<PathComponent>,
    a: Seq<PathComponent>,
    b: Seq<PathComponent>,
)
    requires
        wire_form(root, a) is Ok,
        wire_form(root, a) == wire_form(root, b),
        forall|i: int|
            0 <= i < a.len() ==> (#[trigger] a[i] matches PathComponent::Normal(name)
                ==> !name@.contains('/')),
        forall|i: int|
            0 <= i < b.len() ==> (#[trigger] b[i] matches PathComponent::Normal(name)
                ==> !name@.contains('/')),
    ensures
        a.len() == b.len(),
        forall|i: int| 0 <= i < a.len() ==> same_path_component(#[trigger] a[i], b[i]),
{
    law_wire_form_keeps_names(root, a);
    law_wire_form_keeps_names(root, b);
    let start = root.len() as int;
    let left = a.skip(start);
    let right = b.skip(start);
    assert(component_names(left) == component_names(right));
    assert(left.len() == component_names(left).len() == right.len());
    assert forall|i: int| 0 <= i < a.len() implies same_path_component(#[trigger] a[i], b[i]) by {
        if i < start {
            assert(same_path_component(root[i], a[i]) && same_path_component(root[i], b[i]));
        } else {
            lemma_transferable_is_normal(left, i - start);
            lemma_transferable_is_normal(right, i - start);
            assert(left[i - start] == a[i] && right[i - start] == b[i]);
            assert(component_names(left)[i - start] == component_names(right)[i - start]);
        }
    }
}

/// To a root that is empty or ends in a slash the names are appended as they are, with
/// a separator between them.
pub proof fn law_joining_to_an_open_root(platform: Platform, root: Seq<char>, path: Seq<char>)
    requires
        is_wire_path(path),
        root.len() == 0 || root.last() == '/',
    ensures
        ({
            let pieces = crate::text::split(path, '/');
            let joined = join_components(platform, root, pieces);
            &&& pieces.len() == 1 ==> joined == root + path
            &&& platform is Posix ==> joined == root + path
        }),
{
    let pieces = crate::text::split(path, '/');
    crate::text::lemma_split_nonempty(path, '/');
    crate::text::law_split_pieces_lack_separator(path, '/');
    crate::text::law_join_restores_split(path, '/');
    assert forall|i: int| 0 <= i < pieces.len() implies (#[trigger] pieces[i]).len() > 0
        && !pieces[i].contains('/') by {
        law_wire_components_keep_the_rules(path, i);
    }
    lemma_join_to_open_root(platform, root, pieces);
}

proof fn lemma_join_to_open_root(platform: Platform, root: Seq<char>, components: Seq<Seq<char>>)
    requires
        root.len() == 0 || root.last() == '/',
        components.len() > 0,
        forall|i: int|
            0 <= i < components.len() ==> (#[trigger] components[i]).len() > 0
                && !components[i].contains('/'),
    ensures
        components.len() == 1 ==> join_components(platform, root, components) == root
            + components[0],
        platform is Posix ==> join_components(platform, root, components) == root
            + crate::text::join(components, '/') && !takes_name(
            platform,
            join_components(platform, root, components),
        ),
    decreases components.len(),
{
    let shorter = components.drop_last();
    let last = components.last();
    let whole = join_components(platform, root, components);
    assert(components[components.len() - 1] == last);
    assert(last.contains(last[last.len() - 1]));
    if components.len() == 1 {
        assert(join_components(platform, root, shorter) == root);
        assert(whole =~= root + components[0]);
    } else if platform is Posix {
        assert forall|i: int| 0 <= i < shorter.len() implies (#[trigger] shorter[i]).len() > 0
            && !shorter[i].contains('/') by {
            assert(shorter[i] == components[i]);
        }
        lemma_join_to_open_root(platform, root, shorter);
        assert(whole =~= root + crate::text::join(components, '/'));
    }
    assert(whole.last() == last.last());
}

/// Which places are absolute: those that begin with a slash, with a drive and a slash of
/// either kind, or with two backslashes.
pub proof fn law_what_is_absolute_somewhere(path: Seq<char>)
    ensures
        is_absolute_somewhere(path) <==> {
            ||| path.len() > 0 && path[0] == '/'
            ||| path.len() > 1 && path[0] == '\\' && path[1] == '\\'
            ||| path.len() > 2 && ('a' <= path[0] <= 'z' || 'A' <= path[0] <= 'Z') && path[1] == ':'
                && (path[2] == '/' || path[2] == '\\')
        },
{
    let two = seq!['\\', '\\'];
    if path.len() >= 2 {
        if path[0] == '\\' && path[1] == '\\' {
            assert(path.take(2) =~= two);
        }
        if path.take(2) == two {
            assert(path.take(2)[0] == '\\' && path.take(2)[1] == '\\');
        }
    }
}

proof fn lemma_first_untransferable(components: Seq<PathComponent>)
    ensures
        untransferable(components) is None <==> forall|i: int|
            0 <= i < components.len() ==> (#[trigger] components[i]) is Normal,
        untransferable(components) matches Some(error) ==> exists|i: int|
            0 <= i < components.len() && !((#[trigger] components[i]) is Normal) && (forall|k: int|
                0 <= k < i ==> (#[trigger] components[k]) is Normal) && if components[i] is NonUtf8 {
                error == RelativePathError::NonUtf8
            } else {
                error == RelativePathError::NonNormalComponent
            },
    decreases components.len(),
{
    if components.len() > 0 {
        let rest = components.drop_last();
        let last = components.len() - 1;
        lemma_first_untransferable(rest);
        if untransferable(rest) is Some {
            let error = untransferable(rest)->0;
            let i = choose|i: int|
                0 <= i < rest.len() && !((#[trigger] rest[i]) is Normal) && (forall|k: int|
                    0 <= k < i ==> (#[trigger] rest[k]) is Normal) && if rest[i] is NonUtf8 {
                    error == RelativePathError::NonUtf8
                } else {
                    error == RelativePathError::NonNormalComponent
                };
            assert(!(components[i] is Normal));
            assert forall|k: int| 0 <= k < i implies (#[trigger] components[k]) is Normal by {
                assert(rest[k] is Normal);
            }
        } else {
            assert forall|k: int| 0 <= k < last implies (#[trigger] components[k]) is Normal by {
                assert(rest[k] is Normal);
            }
            if !(components[last] is Normal) {
                assert(untransferable(components) is Some);
            }
        }
    }
}

/// Which native paths can travel: those below the root whose further components are all
/// names in UTF-8 and make a path that may travel. A path outside the root is refused as
/// such, one with a component that is no name by the first of these.
pub proof fn law_which_native_paths_travel(root: Seq<PathComponent>, path: Seq<PathComponent>)
    ensures
        ({
            let relative = path.skip(root.len() as int);
            let below = root.len() <= path.len() && forall|i: int|
                0 <= i < root.len() ==> same_path_component(#[trigger] root[i], path[i]);
            let named = forall|i: int|
                0 <= i < relative.len() ==> (#[trigger] relative[i]) is Normal;
            let wire = crate::text::join(component_names(relative), '/');
            &&& wire_form(root, path) == Err::<Seq<char>, RelativePathError>(
                RelativePathError::OutsideRoot,
            ) <==> !below
            &&& wire_form(root, path) is Ok <==> below && named && is_wire_path(wire)
            &&& wire_form(root, path) is Ok ==> wire_form(root, path)->Ok_0 == wire
            &&& below && named && !is_wire_path(wire) ==> wire_form(root, path) == Err::<
                Seq<char>,
                RelativePathError,
            >(RelativePathError::InvalidWirePath(wire_path_error(wire)->0))
            &&& below && !named ==> exists|i: int|
                0 <= i < relative.len() && !((#[trigger] relative[i]) is Normal) && (forall|k: int|
                    0 <= k < i ==> (#[trigger] relative[k]) is Normal) && wire_form(root, path)
                    == Err::<Seq<char>, RelativePathError>(
                    if relative[i] is NonUtf8 {
                        RelativePathError::NonUtf8
                    } else {
                        RelativePathError::NonNormalComponent
                    },
                )
        }),
{
    lemma_first_untransferable(path.skip(root.len() as int));
}

/// Which names are kept for staging, whatever else they hold: those that begin with the
/// prefix of the staging directories, in letters of either case.
pub proof fn law_which_names_are_for_staging(name: Seq<char>)
    ensures
        is_staging_name(name) <==> name.len() >= 16 && reads(
            name.take(16),
            seq!['.', 'F', 'A', 'S', 'T', 'S', 'Y', 'N', 'C', '-', 'S', 'T', 'A', 'G', 'E', '-'],
        ),
{
    if name.len() >= 16 {
        let prefix = seq![
            '.', 'F', 'A', 'S', 'T', 'S', 'Y', 'N', 'C', '-', 'S', 'T', 'A', 'G', 'E', '-',
        ];
        lemma_upper_reads(name.take(16), prefix);
        assert(staging_prefix_upper() =~= prefix);
    }
}

/// Which names are those of devices, whatever else they hold: those whose part before
/// the first dot is such a name, in letters of either case.
pub proof fn law_which_names_are_devices(name: Seq<char>, end: int)
    requires
        0 <= end <= name.len(),
        end == name.len() || name[end] == '.',
        forall|k: int| 0 <= k < end ==> #[trigger] name[k] != '.',
    ensures
        has_reserved_name(name) <==> is_device(name.take(end)),
{
    lemma_first_index(name, '.');
    let first = crate::text::first_index_of(name, '.');
    if first < end {
        assert(name[first] == '.');
    }
    if end < first {
        assert(name[end] == '.');
    }
    lemma_reserved_is_device(name.take(first));
}

} // verus!
