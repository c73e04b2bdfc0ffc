//! How the transcriber is set up: model, language, device and audio format.

use vstd::prelude::*;

verus! {

/// The model that is used unless another is chosen: a light one, for low latency.
pub const DEFAULT_MODEL_ID: &'static str = "Systran/faster-whisper-base.en";

/// The language that is used unless another is chosen.
pub const DEFAULT_LANG: &'static str = "en";

/// How much audio is read at a time.
pub const CHUNK_MS: u64 = 40;

/// How many hypotheses a decode follows: one, for low latency.
pub const BEAM_SIZE: usize = 1;

/// The most tokens that a decode generates: few, for low latency.
pub const MAX_LENGTH: usize = 64;

/// How much audio is kept after a decode.
pub const MAX_BUFFER_SECS: usize = 3;

/// The feature extraction settings of 16 kHz Whisper models.
pub const PREPROCESSOR_CONFIG: &'static str =
    r#"{
  "chunk_length": 30,
  "feature_extractor_type": "WhisperFeatureExtractor",
  "feature_size": 80,
  "hop_length": 160,
  "n_fft": 400,
  "n_samples": 480000,
  "nb_max_frames": 3000,
  "padding_side": "right",
  "padding_value": 0.0,
  "processor_class": "WhisperProcessor",
  "return_attention_mask": false,
  "sampling_rate": 16000
}"#;

/// What is reported when there was no device to try.
pub const NO_DEVICE_MESSAGE: &'static str = "failed to initialize whisper on any device";

/// The model to use: the one that was chosen, or the default.
pub fn model_id(chosen: Option<String>) -> (id: String)
    ensures
        id@ == match chosen {
            Some(chosen) => chosen@,
            None => DEFAULT_MODEL_ID@,
        },
        chosen is None ==> id@ == "Systran/faster-whisper-base.en"@,
{
    match chosen {
        Some(chosen) => chosen,
        None => String::from(DEFAULT_MODEL_ID),
    }
}

/// The language to use: the one that was chosen, or the default.
pub fn language(chosen: Option<String>) -> (lang: String)
    ensures
        lang@ == match chosen {
            Some(chosen) => chosen@,
            None => DEFAULT_LANG@,
        },
        chosen is None ==> lang@ == "en"@,
{
    match chosen {
        Some(chosen) => chosen,
        None => String::from(DEFAULT_LANG),
    }
}

/// The feature extraction settings, line by line: 80 features for each of 3000 frames, one every 160
/// samples, over 30 seconds of audio at 16000 samples each.
pub proof fn law_preprocessor_config_by_line()
    ensures
        PREPROCESSOR_CONFIG@ == "{\n"@
            + "  \"chunk_length\": 30,\n"@
            + "  \"feature_extractor_type\": \"WhisperFeatureExtractor\",\n"@
            + "  \"feature_size\": 80,\n"@
            + "  \"hop_length\": 160,\n"@
            + "  \"n_fft\": 400,\n"@
            + "  \"n_samples\": 480000,\n"@
            + "  \"nb_max_frames\": 3000,\n"@
            + "  \"padding_side\": \"right\",\n"@
            + "  \"padding_value\": 0.0,\n"@
            + "  \"processor_class\": \"WhisperProcessor\",\n"@
            + "  \"return_attention_mask\": false,\n"@
            + "  \"sampling_rate\": 16000\n"@
            + "}"@,
{
    reveal_strlit("{\n");
    reveal_strlit("  \"chunk_length\": 30,\n");
    reveal_strlit("  \"feature_extractor_type\": \"WhisperFeatureExtractor\",\n");
    reveal_strlit("  \"feature_size\": 80,\n");
    reveal_strlit("  \"hop_length\": 160,\n");
    reveal_strlit("  \"n_fft\": 400,\n");
    reveal_strlit("  \"n_samples\": 480000,\n");
    reveal_strlit("  \"nb_max_frames\": 3000,\n");
    reveal_strlit("  \"padding_side\": \"right\",\n");
    reveal_strlit("  \"padding_value\": 0.0,\n");
    reveal_strlit("  \"processor_class\": \"WhisperProcessor\",\n");
    reveal_strlit("  \"return_attention_mask\": false,\n");
    reveal_strlit("  \"sampling_rate\": 16000\n");
    reveal_strlit("}");
    reveal_strlit(r#"{
  "chunk_length": 30,
  "feature_extractor_type": "WhisperFeatureExtractor",
  "feature_size": 80,
  "hop_length": 160,
  "n_fft": 400,
  "n_samples": 480000,
  "nb_max_frames": 3000,
  "padding_side": "right",
  "padding_value": 0.0,
  "processor_class": "WhisperProcessor",
  "return_attention_mask": false,
  "sampling_rate": 16000
}"#);
}

/// The feature extraction settings to add to a model's files: none if the model brings its own.
pub fn missing_preprocessor_config(present: bool) -> (config: Option<&'static str>)
    ensures
        match config {
            Some(config) => !present && config@ == PREPROCESSOR_CONFIG@,
            None => present,
        },
{
    if present {
        None
    } else {
        Some(PREPROCESSOR_CONFIG)
    }
}

/// Where a model can run.
#[derive(Debug, Clone, Copy, PartialEq, Eq)]
pub enum Device {
    Cuda,
    Cpu,
}

/// The devices to try, best first: a GPU where there is one, then the processor.
pub open spec fn candidates(cuda_devices: i32) -> Seq<Device> {
    if cuda_devices > 0 {
        seq![Device::Cuda, Device::Cpu]
    } else {
        seq![Device::Cpu]
    }
}

/// Lists the devices to try, given how many GPUs there are.
pub fn device_candidates(cuda_devices: i32) -> (devices: Vec<Device>)
    ensures
        devices@ == candidates(cuda_devices),
{
    if cuda_devices > 0 {
        vec![Device::Cuda, Device::Cpu]
    } else {
        vec![Device::Cpu]
    }
}

/// Why no device could be used: the error of the last attempt, or that there was no attempt.
#[derive(Debug, PartialEq, Eq)]
pub enum InitError<E> {
    LastAttempt(E),
    NoDevice,
}

/// The search for a device on which the model loads.
pub struct DeviceSearch<E> {
    devices: Vec<Device>,
    tried: usize,
    last_error: Option<E>,
}

/// The devices, how many of them have been tried, and the error of the last attempt.
pub struct DeviceSearchView<E> {
    pub devices: Seq<Device>,
    pub tried: nat,
    pub last_error: Option<E>,
}

impl<E> DeviceSearchView<E> {
    /// The devices that have not been tried.
    pub open spec fn remaining(self) -> Seq<Device> {
        self.devices.skip(self.tried as int)
    }
}

/// The search before the first attempt.
pub open spec fn search_start<E>(devices: Seq<Device>) -> DeviceSearchView<E> {
    DeviceSearchView { devices, tried: 0, last_error: None }
}

/// The search after the attempt on the next device failed.
pub open spec fn search_failed<E>(search: DeviceSearchView<E>, error: E) -> DeviceSearchView<E> {
    DeviceSearchView { tried: search.tried + 1, last_error: Some(error), ..search }
}

/// The search after a number of attempts that failed.
pub open spec fn after_failures<E>(devices: Seq<Device>, errors: Seq<E>) -> DeviceSearchView<E>
    decreases errors.len(),
{
    if errors.len() == 0 {
        search_start(devices)
    } else {
        search_failed(after_failures(devices, errors.drop_last()), errors.last())
    }
}

/// What a search that found nothing reports.
pub open spec fn search_error<E>(search: DeviceSearchView<E>) -> InitError<E> {
    match search.last_error {
        Some(error) => InitError::LastAttempt(error),
        None => InitError::NoDevice,
    }
}

impl<E> View for DeviceSearch<E> {
    type V = DeviceSearchView<E>;

    closed spec fn view(&self) -> DeviceSearchView<E> {
        DeviceSearchView {
            devices: self.devices@,
            tried: self.tried as nat,
            last_error: self.last_error,
        }
    }
}

impl<E> DeviceSearch<E> {
    /// No more devices have been tried than there are.
    pub closed spec fn wf(&self) -> bool {
        self.tried <= self.devices.len()
    }

    /// Begins a search over a list of devices.
    pub fn new(devices: Vec<Device>) -> (search: Self)
        ensures
            search.wf(),
            search@ == search_start::<E>(devices@),
    {
        DeviceSearch { devices, tried: 0, last_error: None }
    }

    /// The device to try next, if one is left.
    pub fn next_device(&self) -> (device: Option<Device>)
        requires
            self.wf(),
        ensures
            match device {
                Some(device) => self@.remaining().len() > 0 && device == self@.remaining()[0],
                None => self@.remaining().len() == 0,
            },
    {
        if self.tried < self.devices.len() {
            Some(self.devices[self.tried])
        } else {
            None
        }
    }

    /// Takes note that the next device cannot be used.
    pub fn record_failure(&mut self, error: E)
        requires
            old(self).wf(),
            old(self)@.remaining().len() > 0,
        ensures
            final(self).wf(),
            final(self)@ == search_failed(old(self)@, error),
    {
        self.tried = self.tried + 1;
        self.last_error = Some(error);
    }

    /// Ends the search without a device.
    pub fn into_error(self) -> (error: InitError<E>)
        ensures
            error == search_error(self@),
    {
        match self.last_error {
            Some(error) => InitError::LastAttempt(error),
            None => InitError::NoDevice,
        }
    }
}

/// Each candidate is tried once, in order: after a number of failures the next one up is tried.
/// Only when every candidate has failed is there none left, and then the error of the last attempt
/// is the one reported. The processor is always a candidate, so there is such an attempt.
pub proof fn law_search_tries_every_candidate<E>(cuda_devices: i32, errors: Seq<E>)
    requires
        errors.len() <= candidates(cuda_devices).len(),
    ensures
        ({
            let search = after_failures(candidates(cuda_devices), errors);
            &&& search.devices == candidates(cuda_devices)
            &&& search.tried == errors.len()
            &&& search.remaining() == candidates(cuda_devices).skip(errors.len() as int)
            &&& candidates(cuda_devices).last() == Device::Cpu
            &&& search.remaining().len() == 0 <==> errors.len() == candidates(cuda_devices).len()
            &&& search.remaining().len() == 0 ==> search_error(search) == InitError::LastAttempt(
                errors.last(),
            )
        }),
    decreases errors.len(),
{
    if errors.len() > 0 {
        law_search_tries_every_candidate(cuda_devices, errors.drop_last());
    }
}

/// The processor is always the last candidate, and a GPU comes before it just when there is one.
pub proof fn law_gpu_is_tried_before_the_processor(cuda_devices: i32)
    ensures
        candidates(cuda_devices).last() == Device::Cpu,
        candidates(cuda_devices).contains(Device::Cuda) <==> cuda_devices >= 1,
        candidates(cuda_devices).contains(Device::Cuda) ==> candidates(cuda_devices)[0]
            == Device::Cuda,
        candidates(cuda_devices).no_duplicates(),
        1 <= candidates(cuda_devices).len() <= 2,
{
    if cuda_devices > 0 {
        assert(candidates(cuda_devices)[0] == Device::Cuda);
    }
}

/// A search begins with the first device, whichever the devices are, and goes on to the next with
/// each failure. It reports the error of the last attempt, or that there was none.
pub proof fn law_search_goes_through_the_devices<E>(devices: Seq<Device>, errors: Seq<E>)
    requires
        errors.len() <= devices.len(),
    ensures
        ({
            let search = after_failures(devices, errors);
            &&& search.devices == devices
            &&& search.tried == errors.len()
            &&& search.remaining().len() == devices.len() - errors.len()
            &&& search.remaining().len() > 0 ==> search.remaining()[0] == devices[errors.len() as int]
            &&& errors.len() == 0 ==> search_error(search) == InitError::<E>::NoDevice
            &&& errors.len() > 0 ==> search_error(search) == InitError::LastAttempt(errors.last())
        }),
    decreases errors.len(),
{
    if errors.len() > 0 {
        law_search_goes_through_the_devices(devices, errors.drop_last());
    }
}

/// A failure uses up one device and is the last error from then on, whatever came before.
pub proof fn law_failure_uses_up_one_device<E>(search: DeviceSearchView<E>, error: E)
    requires
        search.remaining().len() > 0,
        search.tried <= search.devices.len(),
    ensures
        search_failed(search, error).devices == search.devices,
        search_failed(search, error).remaining() == search.remaining().drop_first(),
        search_failed(search, error).last_error == Some(error),
        search_error(search_failed(search, error)) == InitError::LastAttempt(error),
{
    assert(search_failed(search, error).remaining() == search.remaining().drop_first());
}

/// The settings of a transcriber that is ready to run.
#[derive(Debug, PartialEq, Eq)]
pub struct EngineSettings {
    pub model_id: String,
    pub language: String,
    pub device: Device,
    pub sample_rate: usize,
    pub max_samples: usize,
}

/// Whether what is computed from a sample rate stays within the machine's integers.
pub open spec fn usable_rate(sample_rate: usize) -> bool {
    &&& sample_rate * MAX_BUFFER_SECS <= usize::MAX
    &&& sample_rate * CHUNK_MS <= u64::MAX
}

/// A sample rate is usable just when three seconds of audio can be counted in a `usize`, and forty
/// seconds in a `u64`.
pub proof fn law_usable_rates(sample_rate: usize)
    ensures
        usable_rate(sample_rate) <==> 3 * sample_rate <= usize::MAX && 40 * sample_rate <= u64::MAX,
{
}

/// Checks that what is computed from a sample rate stays within the machine's integers.
pub fn rate_is_usable(sample_rate: usize) -> (usable: bool)
    ensures
        usable == usable_rate(sample_rate),
{
    sample_rate <= usize::MAX / MAX_BUFFER_SECS && sample_rate as u64 <= u64::MAX / CHUNK_MS
}

/// The number of samples of a chunk, and at least one.
pub open spec fn chunk_samples(sample_rate: usize) -> int {
    if sample_rate * CHUNK_MS / 1_000 >= 1 {
        sample_rate * CHUNK_MS / 1_000
    } else {
        1
    }
}

/// A chunk is a twenty-fifth of a second of audio, in whole samples, and never without any.
pub proof fn law_chunk_is_a_twenty_fifth_of_a_second(sample_rate: usize)
    ensures
        chunk_samples(sample_rate) >= 1,
        sample_rate >= 25 ==> 25 * chunk_samples(sample_rate) <= sample_rate < 25 * (chunk_samples(
            sample_rate,
        ) + 1),
        sample_rate < 25 ==> chunk_samples(sample_rate) == 1,
{
}

impl EngineSettings {
    /// The buffer holds as many seconds of audio as it is meant to.
    pub open spec fn wf(&self) -> bool {
        &&& usable_rate(self.sample_rate)
        &&& self.max_samples == self.sample_rate * MAX_BUFFER_SECS
    }

    /// Settings for a model that loaded on a device and takes audio at a rate.
    pub fn new(
        model_id: String,
        language: String,
        device: Device,
        sample_rate: usize,
    ) -> (settings: Self)
        requires
            usable_rate(sample_rate),
        ensures
            settings.wf(),
            settings.model_id == model_id,
            settings.language == language,
            settings.device == device,
            settings.sample_rate == sample_rate,
            settings.max_samples == sample_rate * MAX_BUFFER_SECS,
            settings.max_samples == 3 * sample_rate,
    {
        let max_samples = sample_rate * MAX_BUFFER_SECS;
        EngineSettings { model_id, language, device, sample_rate, max_samples }
    }

    /// The number of samples to read at a time: those of a chunk, and at least one.
    pub fn chunk_len(&self) -> (len: usize)
        requires
            self.wf(),
        ensures
            len == (if self.sample_rate * CHUNK_MS / 1_000 >= 1 {
                self.sample_rate * CHUNK_MS / 1_000
            } else {
                1
            }),
            len == chunk_samples(self.sample_rate),
            len >= 1,
            self.sample_rate >= 25 ==> 25 * len <= self.sample_rate < 25 * (len + 1),
            self.sample_rate < 25 ==> len == 1,
    {
        let len: u64 = (self.sample_rate as u64 * CHUNK_MS) / 1_000;
        if len >= 1 {
            len as usize
        } else {
            1
        }
    }
}

} // verus!
