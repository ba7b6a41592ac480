//! Speech to text on this machine.

use crate::settings::SttSettings;
use crate::text::{below, blank, copy_str, is_blank, join_below};
use vstd::prelude::*;

verus! {

/// What was understood.
pub struct SttOutcome {
    pub text: String,
    pub elapsed_ms: u64,
}

/// The engine with its model.
pub struct LocalStt {
    model_dir: String,
    engine: String,
}

impl LocalStt {
    pub closed spec fn dir(self) -> Seq<char> {
        self.model_dir@
    }

    pub closed spec fn engine_name(self) -> Seq<char> {
        self.engine@
    }

    /// The engine of the settings, with its model below the data.
    pub fn new(settings: &SttSettings, data_root: &str) -> (r: LocalStt)
        ensures
            r.dir() == below(below(below(data_root@, "models"@), "stt"@), settings.model@),
            r.engine_name() == settings.model@,
    {
        let models = join_below(data_root, "models");
        let stt = join_below(models.as_str(), "stt");
        LocalStt {
            model_dir: join_below(stt.as_str(), settings.model.as_str()),
            engine: settings.model.clone(),
        }
    }

    /// The engine of the default settings; the data is where the environment says,
    /// else in the folder of the agent.
    pub fn default_local(agent_data: Option<String>, local_app_data: Option<String>) -> (r: LocalStt)
        ensures
            r.dir() == below(
                below(below(data_folder(agent_data, local_app_data), "models"@), "stt"@),
                "SenseVoice-Small"@,
            ),
            r.engine_name() == "SenseVoice-Small"@,
    {
        let root = match agent_data {
            Some(d) => d,
            None => {
                let base = match local_app_data {
                    Some(b) => b,
                    None => copy_str("."),
                };
                let owo = join_below(base.as_str(), "OwO");
                join_below(owo.as_str(), "Agent")
            },
        };
        LocalStt::new(&SttSettings::default(), root.as_str())
    }

    pub fn model_dir(&self) -> (r: &str)
        ensures
            r@ == self.dir(),
    {
        self.model_dir.as_str()
    }

    pub fn engine(&self) -> (r: &str)
        ensures
            r@ == self.engine_name(),
    {
        self.engine.as_str()
    }

    /// Whether the model is there: both its files are.
    pub fn is_ready(&self, has_model: bool, has_tokens: bool) -> (r: bool)
        ensures
            r == (has_model && has_tokens),
    {
        has_model && has_tokens
    }

    /// What comes of speech: nothing without the model, and nothing without
    /// words. `recognized` is what the recognizer made of it, and is not looked at
    /// where the model is missing.
    pub fn transcribe_wav(
        &self,
        has_model: bool,
        has_tokens: bool,
        recognized: Result<String, String>,
        elapsed_ms: u64,
    ) -> (r: Result<SttOutcome, String>)
        ensures
            if !(has_model && has_tokens) {
                r matches Err(e) && e@ == "本地 STT 模型未就绪："@ + self.dir()
                    + "（运行 scripts/download-stt-model.ps1）"@
            } else {
                match recognized {
                    Err(e) => r == Err::<SttOutcome, String>(e),
                    Ok(t) => if is_blank(t@) {
                        r matches Err(e) && e@ == "未识别到语音"@
                    } else {
                        r matches Ok(o) && o.text == t && o.elapsed_ms == elapsed_ms
                    },
                }
            },
    {
        if !self.is_ready(has_model, has_tokens) {
            let mut e = copy_str("本地 STT 模型未就绪：");
            e.append(self.model_dir.as_str());
            e.append("（运行 scripts/download-stt-model.ps1）");
            return Err(e);
        }
        match recognized {
            Ok(text) => {
                if blank(text.as_str()) {
                    return Err(copy_str("未识别到语音"));
                }
                Ok(SttOutcome { text, elapsed_ms })
            },
            Err(e) => Err(e),
        }
    }
}

/// Where the data of the agent is.
pub open spec fn data_folder(agent_data: Option<String>, local_app_data: Option<String>) -> Seq<char> {
    match agent_data {
        Some(d) => d@,
        None => below(
            below(
                match local_app_data {
                    Some(b) => b@,
                    None => "."@,
                },
                "OwO"@,
            ),
            "Agent"@,
        ),
    }
}

// ---------------------------------------------------------------------------
// Laws
// ---------------------------------------------------------------------------

/// The folder of the data is the one that was set; else it lies in the folder of local
/// data, and where there is none, in the current one.
pub proof fn data_lie_where_they_were_set(d: String, local: String)
    ensures
        data_folder(Some(d), None) == d@ && data_folder(Some(d), Some(local)) == d@,
        data_folder(None, Some(local)) == below(below(local@, "OwO"@), "Agent"@),
        data_folder(None, None) == below(below("."@, "OwO"@), "Agent"@),
{
}

} // verus!
