//! The initialization arguments of the Java virtual machine, built with the
//! `jni` crate from the options of a launch.
//!
//! What this module says of the builder of that crate is taken from the
//! crate's source and is not proved here; each such statement names the
//! function that it is about.

use vstd::prelude::*;
use crate::arguments::LaunchOpts;
use crate::text::views;

verus! {

/// `jni::InitArgsBuilder`, the builder of initialization arguments; nothing
/// is known of what it holds but what the functions below say.
#[verifier::external_type_specification]
#[verifier::external_body]
pub struct ExInitArgsBuilder<'a>(jni::InitArgsBuilder<'a>);

/// `jni::InitArgs`, the initialization arguments themselves; they are only
/// handed on.
#[verifier::external_type_specification]
#[verifier::external_body]
pub struct ExInitArgs<'a>(jni::InitArgs<'a>);

/// `jni::JvmError`, the error of a builder that was given an option it
/// cannot pass on; it is only handed on.
#[verifier::external_type_specification]
#[verifier::external_body]
pub struct ExJvmError(jni::JvmError);

/// The version of the native interface that the launcher asks for: 1.2.
pub const JNI_VERSION: i32 = 0x0001_0002;

/// Whether the builder holds an error from an option that it was given.
/// The builder keeps the first such error until it is asked to build.
pub uninterp spec fn builder_failed(builder: jni::InitArgsBuilder<'static>) -> bool;

/// The version that the builder asks for, as its number.
pub uninterp spec fn builder_version(builder: jni::InitArgsBuilder<'static>) -> i32;

/// Whether the builder tells the virtual machine to pass over options that
/// it does not know.
pub uninterp spec fn builder_ignores(builder: jni::InitArgsBuilder<'static>) -> bool;

/// How many options the builder holds, where it holds no error.
pub uninterp spec fn builder_count(builder: jni::InitArgsBuilder<'static>) -> nat;

/// The option that the error names which the builder holds, where it holds
/// one.
pub uninterp spec fn builder_refused(builder: jni::InitArgsBuilder<'static>) -> Seq<char>;

/// The version that the arguments ask for, as its number.
pub uninterp spec fn args_version(args: jni::InitArgs<'static>) -> i32;

/// Whether the arguments tell the virtual machine to pass over options that
/// it does not know.
pub uninterp spec fn args_ignores(args: jni::InitArgs<'static>) -> bool;

/// How many options the arguments hold.
pub uninterp spec fn args_count(args: jni::InitArgs<'static>) -> nat;

/// The option that the error names.
pub uninterp spec fn error_option(error: jni::JvmError) -> Seq<char>;

/// Whether `option` has a NUL character anywhere but at its end.
pub open spec fn has_inner_nul(option: Seq<char>) -> bool {
    exists|i: int| 0 <= i < option.len() - 1 && #[trigger] option[i] == '\0'
}

/// Whether the builder passes over `option` without a word: it is one of
/// the three hooks that the builder does not support.
pub open spec fn is_passed_over(option: Seq<char>) -> bool {
    option == "vfprintf"@ || option == "abort"@ || option == "exit"@
}

/// Whether the builder takes or passes over `option` without encoding it:
/// the option is empty, a single NUL character, or one that is passed over.
/// Such an option never leaves an error behind.
pub open spec fn needs_no_encoding(option: Seq<char>) -> bool {
    option.len() == 0 || option == seq!['\0'] || is_passed_over(option)
}

/// How many of `options` a builder holds once it has taken them all: those
/// that it does not pass over.
pub open spec fn passed_on(options: Seq<Seq<char>>) -> nat
    decreases options.len(),
{
    if options.len() == 0 {
        0
    } else {
        passed_on(options.drop_last()) + (if is_passed_over(options.last()) {
            0nat
        } else {
            1nat
        })
    }
}

/// Calls `InitArgsBuilder::new`. Taken on trust: the new builder holds no
/// error and no option.
#[verifier::external_body]
fn new_builder() -> (builder: jni::InitArgsBuilder<'static>)
    ensures
        !builder_failed(builder),
        builder_count(builder) == 0,
{
    jni::InitArgsBuilder::new()
}

/// Calls `InitArgsBuilder::version` with the version that stands for the
/// number `version`. Taken on trust: the builder then asks for that
/// version, and everything else that it holds stays as it is.
#[verifier::external_body]
fn with_version(builder: jni::InitArgsBuilder<'static>, version: i32) -> (out: jni::InitArgsBuilder<
    'static,
>)
    ensures
        builder_version(out) == version,
        builder_ignores(out) == builder_ignores(builder),
        builder_failed(out) == builder_failed(builder),
        builder_count(out) == builder_count(builder),
        builder_refused(out) == builder_refused(builder),
{
    builder.version(jni::JNIVersion::from(version))
}

/// Calls `InitArgsBuilder::ignore_unrecognized`, which sets whether the
/// virtual machine passes over options that it does not know. Taken on
/// trust: the builder then holds `ignore`, and everything else that it holds
/// stays as it is.
#[verifier::external_body]
fn with_ignore_unrecognized(builder: jni::InitArgsBuilder<'static>, ignore: bool) -> (out:
    jni::InitArgsBuilder<'static>)
    ensures
        builder_ignores(out) == ignore,
        builder_version(out) == builder_version(builder),
        builder_failed(out) == builder_failed(builder),
        builder_count(out) == builder_count(builder),
        builder_refused(out) == builder_refused(builder),
{
    builder.ignore_unrecognized(ignore)
}

/// Calls `InitArgsBuilder::option`, which adds an option. Taken on trust:
/// the version and the flag stay. A builder that holds an error keeps it and
/// takes nothing. A builder that holds none either takes the option, so that
/// it holds one more, or none more where the option is passed over, or is
/// left with an error that names this option. An option with a NUL character
/// before its end always leaves an error behind, and one that needs no
/// encoding never does. Of other options it is not claimed that they are
/// taken: whether they can be encoded depends on the platform.
#[verifier::external_body]
fn with_option(builder: jni::InitArgsBuilder<'static>, option: &str) -> (out: jni::InitArgsBuilder<
    'static,
>)
    ensures
        builder_version(out) == builder_version(builder),
        builder_ignores(out) == builder_ignores(builder),
        builder_failed(builder) ==> builder_failed(out) && builder_refused(out) == builder_refused(
            builder,
        ),
        !builder_failed(builder) && builder_failed(out) ==> builder_refused(out) == option@,
        !builder_failed(builder) && !builder_failed(out) ==> builder_count(out) == builder_count(
            builder,
        ) + (if is_passed_over(option@) {
            0nat
        } else {
            1nat
        }),
        has_inner_nul(option@) ==> builder_failed(out),
        !builder_failed(builder) && needs_no_encoding(option@) ==> !builder_failed(out),
{
    builder.option(option.to_owned())
}

/// Calls `InitArgsBuilder::build`. Taken on trust: it gives the error that
/// the builder holds where it holds one, and else arguments with the
/// version, the flag and as many options as the builder holds.
#[verifier::external_body]
fn build(builder: jni::InitArgsBuilder<'static>) -> (out: Result<
    jni::InitArgs<'static>,
    jni::JvmError,
>)
    ensures
        out is Err == builder_failed(builder),
        out matches Ok(args) ==> args_version(args) == builder_version(builder) && args_ignores(
            args,
        ) == builder_ignores(builder) && args_count(args) == builder_count(builder),
        out matches Err(error) ==> error_option(error) == builder_refused(builder),
{
    builder.build()
}

/// Turns the options of a launch into the initialization arguments of the
/// virtual machine.
///
/// The arguments, where they are built, ask for version 1.2 of the native
/// interface, tell the virtual machine to pass over options that it does not
/// know, and hold as many options as the launch has, those that the builder
/// passes over not counted. An error names one of the options of the launch,
/// and no option before that one has a NUL character before its end.
///
/// The arguments are always built where no option needs encoding, with no
/// option at all among the cases. An option with a NUL character before its
/// end always gives an error. Whether any other option can be encoded is for
/// the platform to say.
pub fn make_jvm_args(launch_opts: &LaunchOpts) -> (out: Result<
    jni::InitArgs<'static>,
    jni::JvmError,
>)
    ensures
        launch_opts.jvm_opts@.len() == 0 ==> out is Ok,
        (forall|i: int|
            0 <= i < launch_opts.jvm_opts@.len() ==> needs_no_encoding(
                #[trigger] views(launch_opts.jvm_opts@)[i],
            )) ==> out is Ok,
        (exists|i: int|
            0 <= i < launch_opts.jvm_opts@.len() && has_inner_nul(
                #[trigger] views(launch_opts.jvm_opts@)[i],
            )) ==> out is Err,
        out matches Ok(args) ==> args_version(args) == JNI_VERSION && args_ignores(args)
            && args_count(args) == passed_on(views(launch_opts.jvm_opts@)),
        out matches Err(error) ==> exists|i: int|
            0 <= i < launch_opts.jvm_opts@.len() && error_option(error) == #[trigger] views(
                launch_opts.jvm_opts@,
            )[i] && forall|j: int|
                0 <= j < i ==> !has_inner_nul(#[trigger] views(launch_opts.jvm_opts@)[j]),
{
    let options = &launch_opts.jvm_opts;
    let ghost all = views(options@);
    let mut builder = with_ignore_unrecognized(with_version(new_builder(), JNI_VERSION), true);
    let mut i: usize = 0;
    proof {
        assert(all.take(0) =~= Seq::<Seq<char>>::empty());
    }
    while i < options.len()
        invariant
            i <= options.len(),
            all == views(options@),
            builder_version(builder) == JNI_VERSION,
            builder_ignores(builder),
            !builder_failed(builder) ==> builder_count(builder) == passed_on(all.take(i as int)),
            builder_failed(builder) ==> exists|k: int|
                0 <= k < i && builder_refused(builder) == #[trigger] all[k] && forall|j: int|
                    0 <= j < k ==> !has_inner_nul(#[trigger] all[j]),
            (exists|k: int| 0 <= k < i && has_inner_nul(#[trigger] all[k])) ==> builder_failed(
                builder,
            ),
            (forall|k: int| 0 <= k < i ==> needs_no_encoding(#[trigger] all[k]))
                ==> !builder_failed(builder),
        decreases options.len() - i,
    {
        let ghost before = builder;
        proof {
            assert(all.take(i + 1).drop_last() == all.take(i as int));
            assert(all.take(i + 1).last() == options@[i as int]@);
            assert(all[i as int] == options@[i as int]@);
        }
        builder = with_option(builder, options[i].as_str());
        proof {
            if !builder_failed(before) && builder_failed(builder) {
                // The first option that is refused: none before it has a
                // NUL character before its end, or the builder had failed.
                assert(builder_refused(builder) == all[i as int]);
                assert forall|j: int| 0 <= j < i implies !has_inner_nul(#[trigger] all[j]) by {}
            }
        }
        i += 1;
    }
    proof {
        assert(all.take(options.len() as int) == all);
    }
    build(builder)
}

} // verus!
