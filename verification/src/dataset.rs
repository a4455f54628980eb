//! Deterministic datasets: which files they have and what is in them.

use crate::text::{decimal, to_decimal};
use vstd::prelude::*;

verus! {

pub const KIB: u64 = 1024;

pub const MIB: u64 = 1024 * 1024;

pub const DEFAULT_MAX_TOTAL_BYTES: u64 = 4 * 1024 * 1024 * 1024;

pub const MAX_FILE_COUNT: u64 = 1_000_000;

pub const GENERATOR_BUFFER_SIZE: usize = 1024 * 1024;

#[derive(Debug, Clone, Copy, PartialEq, Eq, Structural)]
pub enum DatasetProfile {
    Small,
    Medium,
    Large,
    Mixed,
}

#[derive(Debug, Clone, PartialEq, Eq)]
pub struct GenerateDatasetArgs {
    /// Directory to create.
    pub output: String,
    /// Distribution of deterministic files.
    pub profile: DatasetProfile,
    /// Scale profile file counts from 1 to 1000 percent.
    pub scale_percent: u32,
    /// Replace the profile's total file count.
    pub files: Option<u64>,
    /// Replace every generated file size in bytes.
    pub bytes_per_file: Option<u64>,
    /// Replace every generated file size in MiB.
    pub bytes_per_file_mib: Option<u64>,
    /// Refuse plans larger than this many bytes.
    pub max_total_bytes: u64,
    /// Seed for deterministic file contents.
    pub seed: u64,
    /// Replace a non-empty output directory.
    pub force: bool,
}

#[derive(Debug, Clone, PartialEq, Eq)]
pub struct DatasetSummary {
    pub output: String,
    pub profile: &'static str,
    pub files: u64,
    pub bytes: u64,
    pub seed: u64,
}

/// Why a dataset is refused.
#[derive(Debug, Clone, Copy, PartialEq, Eq, Structural)]
pub enum DatasetFault {
    ScaleOutOfRange,
    ZeroMaximum,
    ZeroFiles,
    FileSizeTooLarge,
    SeveralFileSizes,
    ScaledCountOverflow,
    FileCountOverflow,
    NoFiles,
    TooManyFiles { files: u64 },
    ByteCountOverflow,
    TooManyBytes { bytes: u64, maximum: u64 },
}

/// Files of one size.
#[derive(Debug, Clone, Copy, PartialEq, Eq)]
pub struct DatasetClass {
    pub name: &'static str,
    pub count: u64,
    pub bytes_per_file: u64,
}

/// The classes of a profile.
pub open spec fn classes_of(profile: DatasetProfile) -> Seq<DatasetClass> {
    match profile {
        DatasetProfile::Small => seq![
            DatasetClass { name: "small", count: 1024, bytes_per_file: 4096 },
        ],
        DatasetProfile::Medium => seq![
            DatasetClass { name: "medium", count: 128, bytes_per_file: MIB },
        ],
        DatasetProfile::Large => seq![
            DatasetClass { name: "large", count: 4, bytes_per_file: (256 * MIB) as u64 },
        ],
        DatasetProfile::Mixed => seq![
            DatasetClass { name: "small", count: 512, bytes_per_file: 4096 },
            DatasetClass { name: "medium", count: 64, bytes_per_file: MIB },
            DatasetClass { name: "large", count: 2, bytes_per_file: (128 * MIB) as u64 },
        ],
    }
}

/// The kinds of file that a profile is made of.
pub fn profile_classes(profile: DatasetProfile) -> (classes: Vec<DatasetClass>)
    ensures
        classes@ == classes_of(profile),
{
    let mut classes: Vec<DatasetClass> = Vec::new();
    match profile {
        DatasetProfile::Small => {
            classes.push(DatasetClass { name: "small", count: 1_024, bytes_per_file: 4 * KIB });
        },
        DatasetProfile::Medium => {
            classes.push(DatasetClass { name: "medium", count: 128, bytes_per_file: MIB });
        },
        DatasetProfile::Large => {
            classes.push(DatasetClass { name: "large", count: 4, bytes_per_file: 256 * MIB });
        },
        DatasetProfile::Mixed => {
            classes.push(DatasetClass { name: "small", count: 512, bytes_per_file: 4 * KIB });
            classes.push(DatasetClass { name: "medium", count: 64, bytes_per_file: MIB });
            classes.push(DatasetClass { name: "large", count: 2, bytes_per_file: 128 * MIB });
        },
    }
    assert(classes@ =~= classes_of(profile));
    classes
}

/// The size of a file where only the number of files is given.
pub open spec fn typical_size(profile: DatasetProfile) -> int {
    match profile {
        DatasetProfile::Small => 4096,
        DatasetProfile::Medium | DatasetProfile::Mixed => MIB as int,
        DatasetProfile::Large => 256 * MIB,
    }
}

/// The size of a file that stands for a profile.
pub fn representative_size(profile: DatasetProfile) -> (size: u64)
    ensures
        size == typical_size(profile),
{
    match profile {
        DatasetProfile::Small => 4 * KIB,
        DatasetProfile::Medium | DatasetProfile::Mixed => MIB,
        DatasetProfile::Large => 256 * MIB,
    }
}

/// A percentage of a count, rounded up, but at least one.
pub open spec fn percentage(count: int, percent: int) -> int {
    let hundredths = count * percent;
    if hundredths == 0 {
        1
    } else {
        (hundredths + 99) / 100
    }
}

/// A percentage of a count, rounded up, but at least one.
pub fn scaled_count(count: u64, percent: u32) -> (result: Result<u64, DatasetFault>)
    ensures
        result == if count * percent > u64::MAX {
            Err(DatasetFault::ScaledCountOverflow)
        } else {
            Ok(percentage(count as int, percent as int) as u64)
        },
        count * percent <= u64::MAX ==> 1 <= percentage(count as int, percent as int) <= u64::MAX,
{
    match count.checked_mul(percent as u64) {
        Some(numerator) => {
            if numerator == 0 {
                Ok(1)
            } else {
                let rounded: u64 = if numerator % 100 == 0 {
                    numerator / 100
                } else {
                    numerator / 100 + 1
                };
                Ok(rounded)
            }
        },
        None => Err(DatasetFault::ScaledCountOverflow),
    }
}

/// The lower-case name of a profile.
pub open spec fn profile_text(profile: DatasetProfile) -> Seq<char> {
    match profile {
        DatasetProfile::Small => "small"@,
        DatasetProfile::Medium => "medium"@,
        DatasetProfile::Large => "large"@,
        DatasetProfile::Mixed => "mixed"@,
    }
}

/// The name of a profile.
pub fn profile_name(profile: DatasetProfile) -> (name: &'static str)
    ensures
        name@ == profile_text(profile),
{
    match profile {
        DatasetProfile::Small => "small",
        DatasetProfile::Medium => "medium",
        DatasetProfile::Large => "large",
        DatasetProfile::Mixed => "mixed",
    }
}

/// The file size that was asked for instead of those of the profile.
pub open spec fn size_override(args: GenerateDatasetArgs) -> Result<Option<u64>, DatasetFault> {
    match (args.bytes_per_file, args.bytes_per_file_mib) {
        (Some(_), Some(_)) => Err(DatasetFault::SeveralFileSizes),
        (Some(bytes), None) => Ok(Some(bytes)),
        (None, Some(mib)) => if mib * MIB > u64::MAX {
            Err(DatasetFault::FileSizeTooLarge)
        } else {
            Ok(Some((mib * MIB) as u64))
        },
        (None, None) => Ok(None),
    }
}

fn resolve_file_size(args: &GenerateDatasetArgs) -> (result: Result<Option<u64>, DatasetFault>)
    ensures
        result == size_override(*args),
{
    match (args.bytes_per_file, args.bytes_per_file_mib) {
        (Some(_), Some(_)) => Err(DatasetFault::SeveralFileSizes),
        (Some(bytes), None) => Ok(Some(bytes)),
        (None, Some(mib)) => match mib.checked_mul(MIB) {
            Some(bytes) => Ok(Some(bytes)),
            None => Err(DatasetFault::FileSizeTooLarge),
        },
        (None, None) => Ok(None),
    }
}

/// A class of a profile after scaling.
pub open spec fn scaled_class(
    class: DatasetClass,
    percent: u32,
    size: Option<u64>,
) -> DatasetClass {
    DatasetClass {
        name: class.name,
        count: percentage(class.count as int, percent as int) as u64,
        bytes_per_file: match size {
            Some(bytes) => bytes,
            None => class.bytes_per_file,
        },
    }
}

/// The classes of the dataset that was asked for.
pub open spec fn planned_classes(args: GenerateDatasetArgs, size: Option<u64>) -> Seq<
    DatasetClass,
> {
    match args.files {
        Some(files) => seq![
            DatasetClass {
                name: "custom",
                count: files,
                bytes_per_file: match size {
                    Some(bytes) => bytes,
                    None => typical_size(args.profile) as u64,
                },
            },
        ],
        None => classes_of(args.profile).map_values(
            |class: DatasetClass| scaled_class(class, args.scale_percent, size),
        ),
    }
}

/// The number of files of some classes.
pub open spec fn file_total(classes: Seq<DatasetClass>) -> nat
    decreases classes.len(),
{
    if classes.len() == 0 {
        0
    } else {
        file_total(classes.drop_last()) + classes.last().count as nat
    }
}

/// The bytes of all files of some classes.
pub open spec fn byte_total(classes: Seq<DatasetClass>) -> nat
    decreases classes.len(),
{
    if classes.len() == 0 {
        0
    } else {
        byte_total(classes.drop_last()) + (classes.last().count * classes.last().bytes_per_file)
            as nat
    }
}

proof fn lemma_totals_grow(classes: Seq<DatasetClass>, n: int)
    requires
        0 <= n <= classes.len(),
    ensures
        file_total(classes.take(n)) <= file_total(classes),
        byte_total(classes.take(n)) <= byte_total(classes),
    decreases classes.len(),
{
    if n == classes.len() {
        assert(classes.take(n) =~= classes);
    } else {
        assert(classes.drop_last().take(n) =~= classes.take(n));
        lemma_totals_grow(classes.drop_last(), n);
        let last = classes.last();
        assert(last.count * last.bytes_per_file >= 0) by (nonlinear_arith)
            requires
                last.count >= 0,
                last.bytes_per_file >= 0,
        ;
    }
}

fn count_files(classes: &[DatasetClass]) -> (result: Result<u64, DatasetFault>)
    ensures
        result == if file_total(classes@) > u64::MAX {
            Err(DatasetFault::FileCountOverflow)
        } else {
            Ok(file_total(classes@) as u64)
        },
{
    let mut total: u64 = 0;
    let mut i: usize = 0;
    assert(classes@.take(0) =~= Seq::<DatasetClass>::empty());
    while i < classes.len()
        invariant
            i <= classes.len(),
            total == file_total(classes@.take(i as int)),
        decreases classes.len() - i,
    {
        assert(classes@.take(i + 1).drop_last() =~= classes@.take(i as int));
        proof {
            lemma_totals_grow(classes@, i + 1);
        }
        total = match total.checked_add(classes[i].count) {
            Some(sum) => sum,
            None => return Err(DatasetFault::FileCountOverflow),
        };
        i += 1;
    }
    assert(classes@.take(i as int) =~= classes@);
    Ok(total)
}

fn count_bytes(classes: &[DatasetClass]) -> (result: Result<u64, DatasetFault>)
    ensures
        result == if byte_total(classes@) > u64::MAX {
            Err(DatasetFault::ByteCountOverflow)
        } else {
            Ok(byte_total(classes@) as u64)
        },
{
    let mut total: u64 = 0;
    let mut i: usize = 0;
    assert(classes@.take(0) =~= Seq::<DatasetClass>::empty());
    while i < classes.len()
        invariant
            i <= classes.len(),
            total == byte_total(classes@.take(i as int)),
        decreases classes.len() - i,
    {
        assert(classes@.take(i + 1).drop_last() =~= classes@.take(i as int));
        proof {
            lemma_totals_grow(classes@, i + 1);
        }
        let class_bytes: u64 = match classes[i].count.checked_mul(classes[i].bytes_per_file) {
            Some(product) => product,
            None => return Err(DatasetFault::ByteCountOverflow),
        };
        total = match total.checked_add(class_bytes) {
            Some(sum) => sum,
            None => return Err(DatasetFault::ByteCountOverflow),
        };
        i += 1;
    }
    assert(classes@.take(i as int) =~= classes@);
    Ok(total)
}

/// Why a dataset that was asked for is refused.
pub open spec fn dataset_fault(args: GenerateDatasetArgs) -> Option<DatasetFault> {
    if !(1 <= args.scale_percent <= 1000) {
        Some(DatasetFault::ScaleOutOfRange)
    } else if args.max_total_bytes == 0 {
        Some(DatasetFault::ZeroMaximum)
    } else if args.files == Some(0u64) {
        Some(DatasetFault::ZeroFiles)
    } else {
        match size_override(args) {
            Err(fault) => Some(fault),
            Ok(size) => {
                let classes = planned_classes(args, size);
                let files = file_total(classes);
                let bytes = byte_total(classes);
                if files > MAX_FILE_COUNT {
                    Some(DatasetFault::TooManyFiles { files: files as u64 })
                } else if bytes > u64::MAX {
                    Some(DatasetFault::ByteCountOverflow)
                } else if bytes > args.max_total_bytes {
                    Some(
                        DatasetFault::TooManyBytes {
                            bytes: bytes as u64,
                            maximum: args.max_total_bytes,
                        },
                    )
                } else {
                    None
                }
            },
        }
    }
}

/// What is to be generated.
#[derive(Debug, Clone, PartialEq, Eq)]
pub struct DatasetPlan {
    pub classes: Vec<DatasetClass>,
    pub summary: DatasetSummary,
}

proof fn lemma_profile_is_small(args: GenerateDatasetArgs, size: Option<u64>)
    requires
        1 <= args.scale_percent <= 1000,
        args.files != Some(0u64),
    ensures
        args.files is None ==> forall|i: int|
            0 <= i < classes_of(args.profile).len() ==> (#[trigger] classes_of(
                args.profile,
            )[i]).count * args.scale_percent <= 1_024_000,
        1 <= file_total(planned_classes(args, size)) <= u64::MAX,
{
    let classes = planned_classes(args, size);
    let profile = classes_of(args.profile);
    let percent = args.scale_percent;
    assert forall|i: int| 0 <= i < profile.len() implies (#[trigger] profile[i]).count * percent
        <= 1_024_000 && 1 <= percentage(profile[i].count as int, percent as int) <= 10_241 by {
        let count = profile[i].count;
        assert(count * percent <= 1024 * 1000) by (nonlinear_arith)
            requires
                count <= 1024,
                percent <= 1000,
        ;
        assert(count * percent >= 1) by (nonlinear_arith)
            requires
                count >= 1,
                percent >= 1,
        ;
    }
    reveal_with_fuel(file_total, 4);
    match args.files {
        Some(files) => {
            assert(classes.drop_last() =~= Seq::<DatasetClass>::empty());
        },
        None => {
            assert(classes.len() == profile.len());
            if profile.len() == 3 {
                assert(profile[0].count == 512 && profile[1].count == 64 && profile[2].count == 2);
                assert(classes.drop_last().drop_last().drop_last() =~= Seq::<
                    DatasetClass,
                >::empty());
                assert(classes.last() == scaled_class(profile[2], percent, size));
                assert(classes.drop_last().last() == scaled_class(profile[1], percent, size));
                assert(classes.drop_last().drop_last().last() == scaled_class(
                    profile[0],
                    percent,
                    size,
                ));
            } else {
                assert(profile.len() == 1);
                assert(classes.drop_last() =~= Seq::<DatasetClass>::empty());
                assert(classes.last() == scaled_class(profile[0], percent, size));
            }
        },
    }
}

/// Plans a dataset.
pub fn generate_dataset(args: &GenerateDatasetArgs) -> (result: Result<DatasetPlan, DatasetFault>)
    ensures
        match result {
            Ok(plan) => {
                &&& dataset_fault(*args) is None
                &&& plan.classes@ == planned_classes(*args, size_override(*args)->Ok_0)
                &&& plan.summary.output == args.output
                &&& plan.summary.profile@ == profile_text(args.profile)
                &&& plan.summary.files == file_total(plan.classes@)
                &&& plan.summary.bytes == byte_total(plan.classes@)
                &&& plan.summary.seed == args.seed
            },
            Err(fault) => dataset_fault(*args) == Some(fault),
        },
{
    if args.scale_percent < 1 || args.scale_percent > 1000 {
        return Err(DatasetFault::ScaleOutOfRange);
    }
    if args.max_total_bytes == 0 {
        return Err(DatasetFault::ZeroMaximum);
    }
    match args.files {
        Some(files) => {
            if files == 0 {
                return Err(DatasetFault::ZeroFiles);
            }
        },
        None => {},
    }
    let size = match resolve_file_size(args) {
        Ok(size) => size,
        Err(fault) => return Err(fault),
    };
    proof {
        lemma_profile_is_small(*args, size);
    }
    let mut classes = profile_classes(args.profile);
    match args.files {
        Some(files) => {
            let bytes_per_file: u64 = match size {
                Some(bytes) => bytes,
                None => representative_size(args.profile),
            };
            classes = Vec::new();
            classes.push(DatasetClass { name: "custom", count: files, bytes_per_file });
        },
        None => {
            let ghost profile = classes@;
            let mut i: usize = 0;
            while i < classes.len()
                invariant
                    i <= classes.len(),
                    classes@.len() == profile.len(),
                    profile == classes_of(args.profile),
                    forall|k: int|
                        0 <= k < profile.len() ==> (#[trigger] profile[k]).count
                            * args.scale_percent <= 1_024_000,
                    forall|k: int|
                        0 <= k < i ==> #[trigger] classes@[k] == scaled_class(
                            profile[k],
                            args.scale_percent,
                            size,
                        ),
                    forall|k: int| i <= k < classes@.len() ==> #[trigger] classes@[k] == profile[k],
                decreases classes.len() - i,
            {
                let class = classes[i];
                assert(class == profile[i as int]);
                let count: u64 = match scaled_count(class.count, args.scale_percent) {
                    Ok(count) => count,
                    Err(fault) => return Err(fault),
                };
                let bytes_per_file: u64 = match size {
                    Some(bytes) => bytes,
                    None => class.bytes_per_file,
                };
                classes.set(i, DatasetClass { name: class.name, count, bytes_per_file });
                i += 1;
            }
        },
    }
    assert(classes@ =~= planned_classes(*args, size));
    let files: u64 = match count_files(&classes) {
        Ok(count) => count,
        Err(fault) => return Err(fault),
    };
    if files == 0 {
        return Err(DatasetFault::NoFiles);
    }
    if files > MAX_FILE_COUNT {
        return Err(DatasetFault::TooManyFiles { files });
    }
    let bytes: u64 = match count_bytes(&classes) {
        Ok(count) => count,
        Err(fault) => return Err(fault),
    };
    if bytes > args.max_total_bytes {
        return Err(DatasetFault::TooManyBytes { bytes, maximum: args.max_total_bytes });
    }
    let summary = DatasetSummary {
        output: args.output.clone(),
        profile: profile_name(args.profile),
        files,
        bytes,
        seed: args.seed,
    };
    Ok(DatasetPlan { classes, summary })
}

/// A number in decimal with leading zeros up to a width.
pub open spec fn padded(value: nat, width: nat) -> Seq<char> {
    let digits = decimal(value);
    if digits.len() >= width {
        digits
    } else {
        Seq::new((width - digits.len()) as nat, |i: int| '0') + digits
    }
}

fn append_padded(text: &mut String, value: u64, width: usize)
    ensures
        final(text)@ == old(text)@ + padded(value as nat, width as nat),
{
    let digits = to_decimal(value);
    let length: usize = crate::text::to_chars(digits.as_str()).len();
    let ghost before = text@;
    let mut zeros: usize = 0;
    assert(before + Seq::new(0, |i: int| '0') =~= before);
    while length < width && zeros < width - length
        invariant
            length == digits@.len(),
            zeros == 0 || (length < width && zeros <= width - length),
            text@ == before + Seq::new(zeros as nat, |i: int| '0'),
        decreases width - zeros,
    {
        text.push('0');
        zeros += 1;
        assert(text@ =~= before + Seq::new(zeros as nat, |i: int| '0'));
    }
    text.append(digits.as_str());
    assert(text@ =~= before + padded(value as nat, width as nat));
}

/// A file of a dataset.
#[derive(Debug, Clone, PartialEq, Eq)]
pub struct DatasetFile {
    /// Where it lies below the root, with `/` between the names.
    pub directory: String,
    pub name: String,
    pub size: u64,
    /// The seed of its contents.
    pub seed: u64,
}

/// The class of the file of that number, counted from the first class on.
pub open spec fn class_of(classes: Seq<DatasetClass>, index: int) -> int
    decreases classes.len(),
{
    if classes.len() == 0 {
        -1
    } else if index >= file_total(classes.drop_last()) {
        classes.len() - 1
    } else {
        class_of(classes.drop_last(), index)
    }
}

/// The seed of the file of that number.
pub open spec fn file_seed(seed: u64, index: u64) -> u64 {
    seed ^ vstd::wrapping::u64_specs::wrapping_mul(index, 0x9e37_79b9_7f4a_7c15)
}

impl DatasetFile {
    /// The file is that of that number: 128 files of its class to a directory.
    pub open spec fn is_file(self, classes: Seq<DatasetClass>, seed: u64, index: u64) -> bool {
        let c = class_of(classes, index as int);
        let class = classes[c];
        let within = index - file_total(classes.take(c));
        &&& 0 <= c < classes.len()
        &&& 0 <= within < class.count
        &&& self.directory@ == class.name@ + "/set-"@ + padded((within / 128) as nat, 4)
        &&& self.name@ == "file-"@ + padded(within as nat, 8) + ".bin"@
        &&& self.size == class.bytes_per_file
        &&& self.seed == file_seed(seed, index)
    }
}

proof fn lemma_class_of(classes: Seq<DatasetClass>, c: int, index: int)
    requires
        0 <= c < classes.len(),
        file_total(classes.take(c)) <= index < file_total(classes.take(c + 1)),
    ensures
        class_of(classes, index) == c,
    decreases classes.len(),
{
    let rest = classes.drop_last();
    assert(rest =~= classes.take(classes.len() - 1));
    if c < classes.len() - 1 {
        lemma_totals_grow(rest, c + 1);
        assert(rest.take(c + 1) =~= classes.take(c + 1));
        assert(rest.take(c) =~= classes.take(c));
        lemma_class_of(rest, c, index);
    }
}

/// The file of that number of a dataset.
pub fn dataset_file(classes: &[DatasetClass], seed: u64, index: u64) -> (file: Option<DatasetFile>)
    ensures
        match file {
            Some(found) => index < file_total(classes@) && found.is_file(classes@, seed, index),
            None => index >= file_total(classes@),
        },
{
    let mut within: u64 = index;
    let mut c: usize = 0;
    assert(classes@.take(0) =~= Seq::<DatasetClass>::empty());
    while c < classes.len()
        invariant
            c <= classes.len(),
            index == within + file_total(classes@.take(c as int)),
        decreases classes.len() - c,
    {
        assert(classes@.take(c + 1).drop_last() =~= classes@.take(c as int));
        let class = classes[c];
        if within < class.count {
            let mut directory = class.name.to_owned();
            directory.append("/set-");
            append_padded(&mut directory, within / 128, 4);
            let mut name = "file-".to_owned();
            append_padded(&mut name, within, 8);
            name.append(".bin");
            let file_seed: u64 = seed ^ index.wrapping_mul(0x9e37_79b9_7f4a_7c15);
            proof {
                lemma_class_of(classes@, c as int, index as int);
                lemma_totals_grow(classes@, c + 1);
            }
            return Some(
                DatasetFile { directory, name, size: class.bytes_per_file, seed: file_seed },
            );
        }
        within = within - class.count;
        c += 1;
    }
    assert(classes@.take(c as int) =~= classes@);
    None
}

/// One step of the generator.
pub open spec fn xorshift(state: u64) -> u64 {
    let a = state ^ (state << 13);
    let b = a ^ (a >> 7);
    b ^ (b << 17)
}

fn next_state(state: u64) -> (next: u64)
    ensures
        next == xorshift(state),
{
    let a: u64 = state ^ (state << 13);
    let b: u64 = a ^ (a >> 7);
    b ^ (b << 17)
}

/// The state of the generator after so many steps.
pub open spec fn state_after(seed: u64, steps: nat) -> u64
    decreases steps,
{
    if steps == 0 {
        seed ^ 0xa076_1d64_78bd_642f
    } else {
        xorshift(state_after(seed, (steps - 1) as nat))
    }
}

/// A byte of a number, the least significant first.
pub open spec fn le_byte(value: u64, index: int) -> u8 {
    ((value >> ((8 * index) as u64)) & 0xff) as u8
}

/// A byte of the contents of a file: eight from every step of the generator.
pub open spec fn content_byte(seed: u64, index: int) -> u8 {
    le_byte(state_after(seed, (index / 8 + 1) as nat), index % 8)
}

/// Writes down the contents of one file, block by block.
pub struct FileGenerator {
    state: u64,
    remaining: u64,
    seed: Ghost<u64>,
    written: Ghost<nat>,
}

impl FileGenerator {
    pub closed spec fn wf(self) -> bool {
        &&& self.remaining > 0 ==> self.written@ % 8 == 0
        &&& self.remaining > 0 ==> self.state == state_after(self.seed@, self.written@ / 8)
    }

    /// The seed of the contents.
    pub closed spec fn spec_seed(self) -> u64 {
        self.seed@
    }

    /// How many bytes have been given out.
    pub closed spec fn spec_written(self) -> nat {
        self.written@
    }

    /// How many bytes are still to come.
    pub closed spec fn spec_remaining(self) -> nat {
        self.remaining as nat
    }

    pub fn new(size: u64, seed: u64) -> (generator: Self)
        ensures
            generator.wf(),
            generator.spec_seed() == seed,
            generator.spec_written() == 0,
            generator.spec_remaining() == size,
    {
        FileGenerator {
            state: seed ^ 0xa076_1d64_78bd_642f,
            remaining: size,
            seed: Ghost(seed),
            written: Ghost(0),
        }
    }

    /// The next block, nothing once the file is complete.
    pub fn next_block(&mut self) -> (block: Vec<u8>)
        requires
            old(self).wf(),
        ensures
            final(self).wf(),
            final(self).spec_seed() == old(self).spec_seed(),
            block@.len() == if old(self).spec_remaining() <= GENERATOR_BUFFER_SIZE {
                old(self).spec_remaining() as int
            } else {
                GENERATOR_BUFFER_SIZE as int
            },
            forall|i: int|
                0 <= i < block@.len() ==> #[trigger] block@[i] == content_byte(
                    old(self).spec_seed(),
                    old(self).spec_written() + i,
                ),
            final(self).spec_written() == old(self).spec_written() + block@.len(),
            final(self).spec_remaining() == old(self).spec_remaining() - block@.len(),
    {
        let length: usize = if self.remaining <= GENERATOR_BUFFER_SIZE as u64 {
            self.remaining as usize
        } else {
            GENERATOR_BUFFER_SIZE
        };
        let ghost seed = self.seed@;
        let ghost start = self.written@ as int;
        let mut block: Vec<u8> = Vec::new();
        let mut state: u64 = self.state;
        let mut done: usize = 0;
        while done < length
            invariant
                done <= length,
                done == block@.len(),
                length <= GENERATOR_BUFFER_SIZE,
                start % 8 == 0 || length == 0,
                start >= 0,
                done % 8 == 0 || done == length,
                done % 8 == 0 && length > 0 ==> state == state_after(
                    seed,
                    ((start + done) / 8) as nat,
                ),
                forall|i: int|
                    0 <= i < block@.len() ==> #[trigger] block@[i] == content_byte(
                        seed,
                        start + i,
                    ),
            decreases length - done,
        {
            state = next_state(state);
            let ghost steps = (start + done) / 8 + 1;
            assert(state == state_after(seed, steps as nat));
            let width: usize = if length - done < 8 {
                length - done
            } else {
                8
            };
            let mut j: usize = 0;
            while j < width
                invariant
                    j <= width <= 8,
                    block@.len() == done + j,
                    (start + done) % 8 == 0,
                    start >= 0,
                    steps == (start + done) / 8 + 1,
                    state == state_after(seed, steps as nat),
                    done + width <= GENERATOR_BUFFER_SIZE,
                    forall|i: int|
                        0 <= i < block@.len() ==> #[trigger] block@[i] == content_byte(
                            seed,
                            start + i,
                        ),
                decreases width - j,
            {
                let shift: u64 = 8 * j as u64;
                let byte: u8 = ((state >> shift) & 0xff) as u8;
                assert((start + done + j) / 8 == (start + done) / 8);
                assert((start + done + j) % 8 == j);
                assert(byte == content_byte(seed, start + done + j));
                block.push(byte);
                j += 1;
            }
            done = done + width;
            assert(width == 8 ==> (start + done) / 8 == steps);
        }
        self.state = state;
        self.remaining = self.remaining - length as u64;
        self.written = Ghost((start + length) as nat);
        block
    }
}

/// A percentage is rounded up, and is one at least.
pub proof fn law_percentages_are_rounded_up(count: int, percent: int)
    requires
        count >= 0,
        percent >= 0,
    ensures
        percentage(count, percent) >= 1,
        100 * percentage(count, percent) >= count * percent,
        percentage(count, percent) > 1 ==> 100 * (percentage(count, percent) - 1) < count * percent,
{
    assert(count * percent >= 0) by (nonlinear_arith)
        requires
            count >= 0,
            percent >= 0,
    ;
}

/// Padding puts zeros before a number: it is as wide as asked for at least, and reads
/// back as the number.
pub proof fn law_padding_keeps_the_number(value: nat, width: nat)
    ensures
        padded(value, width).len() >= width,
        crate::text::number_of(padded(value, width)) == value,
        padded(value, width).len() > width ==> padded(value, width) == decimal(value),
{
    let digits = decimal(value);
    crate::text::law_decimal_reads_back(value);
    if digits.len() < width {
        let zeros = Seq::new((width - digits.len()) as nat, |i: int| '0');
        lemma_leading_zeros(zeros, digits);
    }
}

proof fn lemma_leading_zeros(zeros: Seq<char>, digits: Seq<char>)
    requires
        forall|i: int| 0 <= i < zeros.len() ==> zeros[i] == '0',
    ensures
        crate::text::number_of(zeros) == 0,
        crate::text::number_of(zeros + digits) == crate::text::number_of(digits),
    decreases zeros.len() + digits.len(),
{
    if digits.len() > 0 {
        lemma_leading_zeros(zeros, digits.drop_last());
        assert((zeros + digits).drop_last() =~= zeros + digits.drop_last());
        assert((zeros + digits).last() == digits.last());
    } else {
        assert(zeros + digits =~= zeros);
        if zeros.len() > 0 {
            lemma_leading_zeros(zeros.drop_last(), digits);
        }
    }
}

/// Each file is of one class: the classes follow one another, and a class has as many
/// files as it counts.
pub proof fn law_files_belong_to_one_class(classes: Seq<DatasetClass>, index: int)
    requires
        0 <= index < file_total(classes),
    ensures
        ({
            let c = class_of(classes, index);
            &&& 0 <= c < classes.len()
            &&& file_total(classes.take(c)) <= index < file_total(classes.take(c))
                + classes[c].count
        }),
    decreases classes.len(),
{
    let rest = classes.drop_last();
    let c = class_of(classes, index);
    if index >= file_total(rest) {
        assert(classes.take(c) =~= rest);
    } else {
        law_files_belong_to_one_class(rest, index);
        assert(rest.take(c) =~= classes.take(c));
    }
}

/// What a dataset may be: a scale from one to a thousand percent, some files, one way of
/// giving their size, no more files than a million and no more bytes than allowed.
pub proof fn law_what_datasets_are_made(args: GenerateDatasetArgs)
    ensures
        dataset_fault(args) is None <==> {
            &&& 1 <= args.scale_percent <= 1000
            &&& args.max_total_bytes > 0
            &&& args.files != Some(0u64)
            &&& !(args.bytes_per_file is Some && args.bytes_per_file_mib is Some)
            &&& args.bytes_per_file_mib matches Some(mib) ==> mib * 1_048_576 <= u64::MAX
            &&& {
                let size = if args.bytes_per_file is Some {
                    args.bytes_per_file
                } else if args.bytes_per_file_mib is Some {
                    Some((args.bytes_per_file_mib->0 * 1_048_576) as u64)
                } else {
                    None
                };
                let classes = planned_classes(args, size);
                &&& file_total(classes) <= 1_000_000
                &&& byte_total(classes) <= args.max_total_bytes
            }
        },
{
}

/// What a dataset consists of: as many files as asked for, of the size asked for or the
/// usual one of its profile; or the classes of the profile, each scaled, and of the size
/// asked for where one is.
pub proof fn law_what_a_dataset_consists_of(args: GenerateDatasetArgs, size: Option<u64>, i: int)
    ensures
        ({
            let classes = planned_classes(args, size);
            let usual = classes_of(args.profile);
            &&& args.files matches Some(files) ==> {
                &&& classes.len() == 1
                &&& classes[0].count == files
                &&& size matches Some(bytes) ==> classes[0].bytes_per_file == bytes
                &&& size is None ==> classes[0].bytes_per_file == typical_size(args.profile)
            }
            &&& args.files is None ==> classes.len() == usual.len()
            &&& args.files is None && 0 <= i < usual.len() ==> {
                &&& classes[i].name == usual[i].name
                &&& classes[i].count == percentage(
                    usual[i].count as int,
                    args.scale_percent as int,
                ) as u64
                &&& size matches Some(bytes) ==> classes[i].bytes_per_file == bytes
                &&& size is None ==> classes[i].bytes_per_file == usual[i].bytes_per_file
            }
        }),
{
}

/// How large the profiles are: a small one has four mebibytes in files of four kibibytes,
/// a medium one 128 in files of one, a large one a gibibyte in four files, and a mixed
/// one some of each.
pub proof fn law_how_large_profiles_are(profile: DatasetProfile)
    ensures
        ({
            let files = file_total(classes_of(profile));
            let bytes = byte_total(classes_of(profile));
            match profile {
                DatasetProfile::Small => files == 1024 && bytes == 4 * 1_048_576,
                DatasetProfile::Medium => files == 128 && bytes == 128 * 1_048_576,
                DatasetProfile::Large => files == 4 && bytes == 1024 * 1_048_576,
                DatasetProfile::Mixed => files == 578 && bytes == 322 * 1_048_576,
            }
        }),
{
    reveal_with_fuel(file_total, 4);
    reveal_with_fuel(byte_total, 4);
    let classes = classes_of(profile);
    let nothing = Seq::<DatasetClass>::empty();
    if profile is Mixed {
        let two = seq![classes[0], classes[1]];
        let one = seq![classes[0]];
        assert(classes.drop_last() =~= two);
        assert(two.drop_last() =~= one);
        assert(one.drop_last() =~= nothing);
        assert(byte_total(one) == 512 * 4096);
        assert(byte_total(two) == byte_total(one) + 64 * 1_048_576);
        assert(classes.last().bytes_per_file == 128 * 1_048_576);
        assert(byte_total(classes) == byte_total(two) + 2 * (128 * 1_048_576));
    } else {
        assert(classes.drop_last() =~= nothing);
    }
}

/// No two files of one class have the same name.
pub proof fn law_names_in_a_class_differ(
    a: DatasetFile,
    b: DatasetFile,
    classes: Seq<DatasetClass>,
    seed: u64,
    i: u64,
    j: u64,
)
    requires
        a.is_file(classes, seed, i),
        b.is_file(classes, seed, j),
        class_of(classes, i as int) == class_of(classes, j as int),
        i != j,
    ensures
        a.name@ != b.name@,
{
    let c = class_of(classes, i as int);
    let x = i - file_total(classes.take(c));
    let y = j - file_total(classes.take(c));
    let (first, second) = (padded(x as nat, 8), padded(y as nat, 8));
    law_padding_keeps_the_number(x as nat, 8);
    law_padding_keeps_the_number(y as nat, 8);
    if a.name@ == b.name@ {
        let front = "file-"@;
        let back = ".bin"@;
        assert(a.name@ == front + first + back);
        assert(b.name@ == front + second + back);
        assert(first.len() == second.len());
        assert forall|k: int| 0 <= k < first.len() implies first[k] == second[k] by {
            assert((front + first + back)[front.len() + k] == first[k]);
            assert((front + second + back)[front.len() + k] == second[k]);
        }
        assert(first =~= second);
    }
}

} // verus!
