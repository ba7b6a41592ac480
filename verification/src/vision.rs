//! The model that looks at pictures: pictures in the form that it takes, what
//! it is asked, and what it answers.

use crate::crypto::{base64_encode, base64_encoded};
use crate::gateway::{empty_table, text_or};
use crate::json::{list_member, list_model, list_model_elements, member, text_member, Json, JsonModel};
use crate::ocr::announced_bytes;
use crate::platform::{bmp_bits, bmp_height, bmp_width, has_bmp_head, pixel_bytes, read_bmp_head};
use crate::text::{
    begins_with, chars_of, copy_str, decimal, decimal_text, find_text, finishes_with, first_at, first_position_is, has_text,
    is_ascii_digit, lowercase, parts_stand_in_the_whole, same_text,
    signed_decimal, signed_decimal_text, slice, split_words, starts_with, string_of, texts, trim, trimmed,
    unicode_lower, unicode_upper, uppercase, words,
};
use vstd::prelude::*;

verus! {

/// How the model is reached.
pub struct VisionConfig {
    pub provider: String,
    pub model: String,
    pub base_url: Option<String>,
    pub api_key: Option<String>,
    pub ollama_host: String,
}

/// The values of the environment that the configuration is made of.
pub struct VisionEnv {
    pub provider: Option<String>,
    pub model: Option<String>,
    pub base_url: Option<String>,
    pub api_key: Option<String>,
    pub ollama_host: Option<String>,
    pub owo_ollama_host: Option<String>,
}

/// The provider that the environment names, in lower case.
pub open spec fn provider_of(env: VisionEnv) -> Seq<char> {
    unicode_lower(text_or(env.provider, "ollama"@))
}

/// The model of a provider, where the environment names none.
pub open spec fn default_model(provider: Seq<char>) -> Seq<char> {
    if provider == "openai"@ {
        "gpt-4o-mini"@
    } else {
        "qwen2.5vl:3b"@
    }
}

impl VisionConfig {
    /// The configuration from the values of the environment.
    pub fn from_env(env: VisionEnv) -> (r: VisionConfig)
        ensures
            r.provider@ == provider_of(env),
            r.model@ == text_or(env.model, default_model(provider_of(env))),
            r.base_url == env.base_url,
            r.api_key == env.api_key,
            r.ollama_host@ == text_or(
                env.ollama_host,
                text_or(env.owo_ollama_host, "http://127.0.0.1:11434"@),
            ),
    {
        let provider = match env.provider {
            Some(p) => lowercase(p.as_str()),
            None => lowercase("ollama"),
        };
        let model = match env.model {
            Some(m) => m,
            None => if same_text(provider.as_str(), "openai") {
                copy_str("gpt-4o-mini")
            } else {
                copy_str("qwen2.5vl:3b")
            },
        };
        let ollama_host = match env.ollama_host {
            Some(h) => h,
            None => match env.owo_ollama_host {
                Some(h) => h,
                None => copy_str("http://127.0.0.1:11434"),
            },
        };
        VisionConfig { provider, model, base_url: env.base_url, api_key: env.api_key, ollama_host }
    }

    /// Whether the model is reached like those of OpenAI; else through Ollama.
    pub fn is_openai(&self) -> (r: bool)
        ensures
            r == (self.provider@ == "openai"@),
    {
        same_text(self.provider.as_str(), "openai")
    }
}

// ---------------------------------------------------------------------------
// Pictures
// ---------------------------------------------------------------------------

/// What the crate `png` writes for a picture of 8 bits a channel with
/// transparency; else whether the head could be written, and the message of the
/// error.
pub uninterp spec fn png_written(width: u32, height: u32, rgba: Seq<u8>) -> Result<Seq<u8>, (bool, Seq<char>)>;

/// `png::Encoder::write_header` and `png::Writer::write_image_data`, with
/// `ColorType::Rgba` and `BitDepth::Eight`: a function of the size and the
/// points. What is written begins with the signature of the format. Whether the
/// writing succeeds is left to the encoder.
#[verifier::external_body]
fn write_png(width: u32, height: u32, rgba: &Vec<u8>) -> (r: Result<Vec<u8>, (bool, String)>)
    requires
        width > 0,
        height > 0,
        rgba@.len() == width * height * 4,
    ensures
        match r {
            Ok(b) => png_written(width, height, rgba@) == Ok::<Seq<u8>, (bool, Seq<char>)>(b@) && b@.len() >= 8
                && b@.take(8) == seq![137u8, 80u8, 78u8, 71u8, 13u8, 10u8, 26u8, 10u8],
            Err(e) => png_written(width, height, rgba@) == Err::<Seq<u8>, (bool, Seq<char>)>((e.0, e.1@)),
        },
{
    let mut out = Vec::new();
    let mut encoder = png::Encoder::new(&mut out, width, height);
    encoder.set_color(png::ColorType::Rgba);
    encoder.set_depth(png::BitDepth::Eight);
    let mut writer = encoder.write_header().map_err(|e| (false, e.to_string()))?;
    writer.write_image_data(rgba).map_err(|e| (true, e.to_string()))?;
    drop(writer);
    Ok(out)
}

/// The points with red and blue exchanged.
pub open spec fn rgba_of(bgra: Seq<u8>) -> Seq<u8> {
    Seq::new(
        bgra.len(),
        |i: int|
            if i % 4 == 0 {
                bgra[i + 2]
            } else if i % 4 == 2 {
                bgra[i - 2]
            } else {
                bgra[i]
            },
    )
}

/// What stands in the way of a picture in the other format.
pub open spec fn png_fault(b: Seq<u8>) -> Option<Seq<char>> {
    if !has_bmp_head(b) {
        Some("BMP 头无效"@)
    } else if bmp_bits(b) != 32 || bmp_width(b) <= 0 || bmp_height(b) <= 0 {
        Some(
            "不支持的 BMP："@ + signed_decimal(bmp_width(b)) + "x"@ + signed_decimal(bmp_height(b)) + " "@ + decimal(
                bmp_bits(b) as nat,
            ) + "bpp"@,
        )
    } else if b.len() < 54 + announced_bytes(b) {
        Some("BMP 像素数据不完整"@)
    } else {
        None
    }
}

/// What the encoder is given.
pub open spec fn png_points(b: Seq<u8>) -> Seq<u8> {
    rgba_of(b.subrange(54, 54 + announced_bytes(b)))
}

/// The picture in the other format, or why there is none.
pub open spec fn png_of(b: Seq<u8>) -> Result<Seq<u8>, Seq<char>> {
    match png_fault(b) {
        Some(e) => Err(e),
        None => png_answer(png_written(bmp_width(b) as u32, bmp_height(b) as u32, png_points(b))),
    }
}

/// What becomes of what the encoder wrote.
pub open spec fn png_answer(w: Result<Seq<u8>, (bool, Seq<char>)>) -> Result<Seq<u8>, Seq<char>> {
    match w {
        Ok(bytes) => Ok(bytes),
        Err(e) => if e.0 {
            Err("PNG 像素写入失败："@ + e.1)
        } else {
            Err("PNG 头写入失败："@ + e.1)
        },
    }
}

/// The message of an encoder that failed.
pub fn png_failure(in_points: bool, error: &str) -> (r: String)
    ensures
        png_answer(Err((in_points, error@))) == Err::<Seq<u8>, Seq<char>>(r@),
{
    let mut e = if in_points {
        copy_str("PNG 像素写入失败：")
    } else {
        copy_str("PNG 头写入失败：")
    };
    e.append(error);
    e
}

fn exchange(bmp: &Vec<u8>, end: usize) -> (r: Vec<u8>)
    requires
        54 <= end <= bmp@.len(),
        (end - 54) % 4 == 0,
    ensures
        r@ == rgba_of(bmp@.subrange(54, end as int)),
{
    let ghost bgra = bmp@.subrange(54, end as int);
    let mut rgba: Vec<u8> = Vec::new();
    let mut i: usize = 54;
    while i < end
        invariant
            54 <= i <= end <= bmp@.len(),
            (end - 54) % 4 == 0,
            (i - 54) % 4 == 0,
            bgra == bmp@.subrange(54, end as int),
            rgba@.len() == i - 54,
            forall|j: int| 0 <= j < i - 54 ==> #[trigger] rgba@[j] == rgba_of(bgra)[j],
        decreases end - i,
    {
        rgba.push(bmp[i + 2]);
        rgba.push(bmp[i + 1]);
        rgba.push(bmp[i]);
        rgba.push(bmp[i + 3]);
        i += 4;
    }
    assert(rgba@ =~= rgba_of(bgra));
    rgba
}

/// Turns a picture of the screen into the format that the model takes.
pub fn bmp_to_png(bmp: &Vec<u8>) -> (r: Result<Vec<u8>, String>)
    ensures
        match r {
            Ok(b) => png_of(bmp@) == Ok::<Seq<u8>, Seq<char>>(b@) && b@.len() >= 8 && b@.take(8) == seq![
                137u8,
                80u8,
                78u8,
                71u8,
                13u8,
                10u8,
                26u8,
                10u8,
            ],
            Err(e) => png_of(bmp@) == Err::<Seq<u8>, Seq<char>>(e@),
        },
{
    let head = match read_bmp_head(bmp) {
        Some(h) => h,
        None => {
            return Err(copy_str("BMP 头无效"));
        },
    };
    if head.bits != 32 || head.width <= 0 || head.height <= 0 {
        let mut e = copy_str("不支持的 BMP：");
        e.append(signed_decimal_text(head.width as i64).as_str());
        e.append("x");
        e.append(signed_decimal_text(head.height as i64).as_str());
        e.append(" ");
        e.append(decimal_text(head.bits as u64).as_str());
        e.append("bpp");
        return Err(e);
    }
    let expected: u64 = pixel_bytes(head.width, head.height);
    if (bmp.len() as u64) < 54 || (bmp.len() as u64) - 54 < expected {
        return Err(copy_str("BMP 像素数据不完整"));
    }
    let end: usize = 54 + expected as usize;
    let rgba = exchange(bmp, end);
    match write_png(head.width as u32, head.height as u32, &rgba) {
        Ok(b) => Ok(b),
        Err((in_points, e)) => Err(png_failure(in_points, e.as_str())),
    }
}

// ---------------------------------------------------------------------------
// Questions and answers
// ---------------------------------------------------------------------------

/// What Ollama is asked.
pub open spec fn ollama_body(model: Seq<char>, prompt: Seq<char>, png: Seq<u8>) -> JsonModel {
    JsonModel::Table(
        empty_table().insert("model"@, JsonModel::Text(model)).insert("prompt"@, JsonModel::Text(prompt)).insert(
            "images"@,
            JsonModel::List(seq![JsonModel::Text(base64_encoded(png))]),
        ).insert("stream"@, JsonModel::Bool(false)).insert(
            "options"@,
            JsonModel::Table(empty_table().insert("num_predict"@, JsonModel::Int(700))),
        ),
    )
}

/// What a model like those of OpenAI is asked.
pub open spec fn openai_body(model: Seq<char>, prompt: Seq<char>, png: Seq<u8>) -> JsonModel {
    let text = JsonModel::Table(
        empty_table().insert("type"@, JsonModel::Text("text"@)).insert("text"@, JsonModel::Text(prompt)),
    );
    let image = JsonModel::Table(
        empty_table().insert("type"@, JsonModel::Text("image_url"@)).insert(
            "image_url"@,
            JsonModel::Table(
                empty_table().insert("url"@, JsonModel::Text("data:image/png;base64,"@ + base64_encoded(png))),
            ),
        ),
    );
    let message = JsonModel::Table(
        empty_table().insert("role"@, JsonModel::Text("user"@)).insert("content"@, JsonModel::List(seq![text, image])),
    );
    JsonModel::Table(
        empty_table().insert("model"@, JsonModel::Text(model)).insert("messages"@, JsonModel::List(seq![message])).insert(
            "max_tokens"@,
            JsonModel::Int(700),
        ),
    )
}

fn list1(a: Json) -> (r: Json)
    ensures
        r.model() == JsonModel::List(seq![a.model()]),
{
    let mut v: Vec<Json> = Vec::new();
    v.push(a);
    proof {
        list_model_elements(v@);
        assert(list_model(v@) =~= seq![a.model()]);
    }
    Json::List(v)
}

fn list2(a: Json, b: Json) -> (r: Json)
    ensures
        r.model() == JsonModel::List(seq![a.model(), b.model()]),
{
    let mut v: Vec<Json> = Vec::new();
    v.push(a);
    v.push(b);
    proof {
        list_model_elements(v@);
        assert(list_model(v@) =~= seq![a.model(), b.model()]);
    }
    Json::List(v)
}

/// What Ollama is asked.
pub fn ollama_request(config: &VisionConfig, png: &Vec<u8>, prompt: &str) -> (r: Json)
    ensures
        r.model() == ollama_body(config.model@, prompt@, png@),
{
    let image = Json::Text(base64_encode(png.as_slice()));
    Json::table().with("model", Json::text(config.model.as_str())).with("prompt", Json::text(prompt)).with(
        "images",
        list1(image),
    ).with("stream", Json::Bool(false)).with("options", Json::table().with("num_predict", Json::UInt(700)))
}

/// What a model like those of OpenAI is asked.
pub fn openai_request(config: &VisionConfig, png: &Vec<u8>, prompt: &str) -> (r: Json)
    ensures
        r.model() == openai_body(config.model@, prompt@, png@),
{
    let mut url = copy_str("data:image/png;base64,");
    url.append(base64_encode(png.as_slice()).as_str());
    let text = Json::table().with("type", Json::text("text")).with("text", Json::text(prompt));
    let image = Json::table().with("type", Json::text("image_url")).with(
        "image_url",
        Json::table().with("url", Json::Text(url)),
    );
    let message = Json::table().with("role", Json::text("user")).with("content", list2(text, image));
    Json::table().with("model", Json::text(config.model.as_str())).with("messages", list1(message)).with(
        "max_tokens",
        Json::UInt(700),
    )
}

/// The error that a reply states.
pub open spec fn stated_error(value: JsonModel) -> Seq<char> {
    match text_member(value, "error"@) {
        Some(e) => e,
        None => "未知错误"@,
    }
}

/// What a reply of Ollama says.
pub open spec fn ollama_answer(ok: bool, value: JsonModel, model: Seq<char>) -> Result<Seq<char>, Seq<char>> {
    if !ok {
        Err("视觉模型不可用："@ + stated_error(value) + "（请先运行 ollama pull "@ + model + "）"@)
    } else {
        match text_member(value, "response"@) {
            Some(t) => Ok(t),
            None => Err("Ollama 响应缺少 response 字段"@),
        }
    }
}

/// What a reply of a model like those of OpenAI says.
pub open spec fn openai_answer(ok: bool, status: Seq<char>, value: JsonModel) -> Result<Seq<char>, Seq<char>> {
    if !ok {
        Err("视觉端点返回 "@ + status + "："@ + stated_error(value))
    } else {
        match listed_message(value) {
            Some(m) => match text_member(m, "content"@) {
                Some(t) => Ok(t),
                None => Err("视觉端点响应缺少 choices[0].message.content"@),
            },
            None => Err("视觉端点响应缺少 choices[0].message.content"@),
        }
    }
}

/// The message of the first of the choices in a list.
pub open spec fn listed_message(value: JsonModel) -> Option<JsonModel> {
    match list_member(value, "choices"@) {
        Some(l) => if l.len() > 0 {
            member(l[0], "message"@)
        } else {
            None
        },
        None => None,
    }
}

/// `r` holds what `m` says.
pub open spec fn tells(r: Result<String, String>, m: Result<Seq<char>, Seq<char>>) -> bool {
    match r {
        Ok(t) => m == Ok::<Seq<char>, Seq<char>>(t@),
        Err(e) => m == Err::<Seq<char>, Seq<char>>(e@),
    }
}

fn error_text(value: &Json) -> (r: String)
    ensures
        r@ == stated_error(value.model()),
{
    match value.text_at("error") {
        Some(e) => e.clone(),
        None => copy_str("未知错误"),
    }
}

/// Reads a reply of Ollama.
pub fn read_ollama(config: &VisionConfig, ok: bool, value: &Json) -> (r: Result<String, String>)
    ensures
        tells(r, ollama_answer(ok, value.model(), config.model@)),
{
    if !ok {
        let mut e = copy_str("视觉模型不可用：");
        e.append(error_text(value).as_str());
        e.append("（请先运行 ollama pull ");
        e.append(config.model.as_str());
        e.append("）");
        return Err(e);
    }
    match value.text_at("response") {
        Some(t) => Ok(t.clone()),
        None => Err(copy_str("Ollama 响应缺少 response 字段")),
    }
}

/// Reads a reply of a model like those of OpenAI.
pub fn read_openai(ok: bool, status: &str, value: &Json) -> (r: Result<String, String>)
    ensures
        tells(r, openai_answer(ok, status@, value.model())),
{
    if !ok {
        let mut e = copy_str("视觉端点返回 ");
        e.append(status);
        e.append("：");
        e.append(error_text(value).as_str());
        return Err(e);
    }
    if let Some(choices) = value.list_at("choices") {
        proof {
            list_model_elements(choices@);
        }
        if choices.len() > 0 {
            if let Some(message) = choices[0].get("message") {
                if let Some(t) = message.text_at("content") {
                    return Ok(t.clone());
                }
            }
        }
    }
    Err(copy_str("视觉端点响应缺少 choices[0].message.content"))
}

/// The names in a list.
pub open spec fn listed_names(v: Seq<JsonModel>) -> Seq<Seq<char>>
    decreases v.len(),
{
    if v.len() == 0 {
        seq![]
    } else {
        match text_member(v.last(), "name"@) {
            Some(n) => listed_names(v.drop_last()).push(n),
            None => listed_names(v.drop_last()),
        }
    }
}

/// The names of the models that Ollama has.
pub fn ollama_models(value: &Json) -> (r: Vec<String>)
    ensures
        texts(r@) == (match list_member(value.model(), "models"@) {
            Some(v) => listed_names(v),
            None => Seq::<Seq<char>>::empty(),
        }),
{
    let mut names: Vec<String> = Vec::new();
    match value.list_at("models") {
        Some(v) => {
            let ghost all = list_model(v@);
            proof {
                list_model_elements(v@);
                assert(texts(names@) =~= listed_names(all.take(0)));
            }
            for i in 0..v.len()
                invariant
                    all == list_model(v@),
                    all.len() == v@.len(),
                    forall|j: int| 0 <= j < v@.len() ==> #[trigger] all[j] == v@[j].model(),
                    texts(names@) == listed_names(all.take(i as int)),
            {
                let ghost before = texts(names@);
                proof {
                    assert(all.take(i + 1).drop_last() =~= all.take(i as int));
                    assert(all[i as int] == v@[i as int].model());
                }
                if let Some(n) = v[i].text_at("name") {
                    names.push(n.clone());
                    assert(texts(names@) =~= before.push(n@));
                }
            }
            assert(all.take(all.len() as int) =~= all);
        },
        None => {
            assert(texts(names@) =~= Seq::<Seq<char>>::empty());
        },
    }
    names
}

/// The answer that a text in upper case begins with.
pub open spec fn answer_in(upper: Seq<char>) -> Seq<char> {
    if begins_with(upper, "YES"@) {
        "yes"@
    } else if begins_with(upper, "NO"@) {
        "no"@
    } else {
        "unknown"@
    }
}

/// Reads the answer that a text in upper case begins with.
pub fn read_answer(upper: &str) -> (r: String)
    ensures
        r@ == answer_in(upper@),
{
    if starts_with(upper, "YES") {
        copy_str("yes")
    } else if starts_with(upper, "NO") {
        copy_str("no")
    } else {
        copy_str("unknown")
    }
}

/// Reads the answer to a question that asks for yes or no.
pub fn parse_verification(text: &str) -> (r: String)
    ensures
        r@ == answer_in(unicode_upper(trimmed(text@))),
{
    let t = trim(text);
    let upper = uppercase(t.as_str());
    read_answer(upper.as_str())
}

/// A digit or a point.
pub open spec fn is_number_char(c: char) -> bool {
    is_ascii_digit(c) || c == '.'
}

/// The text with spaces in place of all that is neither a digit nor a point.
pub open spec fn numbers_only(s: Seq<char>) -> Seq<char> {
    s.map_values(
        |c: char|
            if is_number_char(c) {
                c
            } else {
                ' '
            },
    )
}

/// What looks like a number in an answer, in its order.
pub fn number_parts(text: &str) -> (r: Vec<String>)
    ensures
        texts(r@) == words(numbers_only(text@)),
{
    let v = chars_of(text);
    let mut s = String::new();
    assert(s@ =~= numbers_only(text@.take(0)));
    for i in 0..v.len()
        invariant
            v@ == text@,
            s@ == numbers_only(text@.take(i as int)),
    {
        let c: char = if ('0' <= v[i] && v[i] <= '9') || v[i] == '.' {
            v[i]
        } else {
            ' '
        };
        s.push(c);
        assert(s@ =~= numbers_only(text@.take(i + 1)));
    }
    assert(text@.take(text@.len() as int) =~= text@);
    split_words(s.as_str())
}

/// The digits and points at the end of a text.
pub open spec fn trailing_number(s: Seq<char>) -> Seq<char>
    decreases s.len(),
{
    if s.len() > 0 && is_number_char(s.last()) {
        trailing_number(s.drop_last()).push(s.last())
    } else {
        seq![]
    }
}

/// What stands before the first percent sign.
pub open spec fn before_percent(s: Seq<char>) -> Seq<char> {
    let at = first_at(s, "%"@);
    if at == -1 {
        s
    } else {
        s.take(at)
    }
}

proof fn trailing_grows(s: Seq<char>, i: int)
    requires
        0 <= i <= s.len(),
        forall|j: int| i <= j < s.len() ==> is_number_char(#[trigger] s[j]),
    ensures
        trailing_number(s) == trailing_number(s.take(i)) + s.skip(i),
    decreases s.len() - i,
{
    if i == s.len() {
        assert(s.take(i) =~= s);
        assert(trailing_number(s) =~= trailing_number(s) + s.skip(i));
    } else {
        let t = s.drop_last();
        assert(t.take(i) =~= s.take(i));
        trailing_grows(t, i);
        assert(trailing_number(s) == trailing_number(t).push(s.last()));
        assert(trailing_number(s) =~= trailing_number(s.take(i)) + s.skip(i));
    }
}

fn last_number(s: &str) -> (r: String)
    ensures
        r@ == trailing_number(s@),
{
    let v = chars_of(s);
    let m: usize = v.len();
    let mut i: usize = m;
    while i > 0 && (('0' <= v[i - 1] && v[i - 1] <= '9') || v[i - 1] == '.')
        invariant
            i <= m,
            m == v@.len(),
            forall|j: int| i <= j < m ==> is_number_char(#[trigger] v@[j]),
        decreases i,
    {
        i -= 1;
    }
    proof {
        trailing_grows(v@, i as int);
        if i > 0 {
            assert(v@.take(i as int).last() == v@[i - 1]);
        }
        assert(trailing_number(v@.take(i as int)).len() == 0);
        assert(v@.subrange(i as int, m as int) =~= trailing_number(v@.take(i as int)) + v@.skip(i as int));
    }
    string_of(&v, i, m)
}

/// What looks like a number right before the first percent sign, or at the end
/// where there is none.
pub fn percent_part(text: &str) -> (r: String)
    ensures
        r@ == trailing_number(before_percent(text@)),
{
    match find_text(text, "%") {
        Some(i) => {
            assert(text@.subrange(0, i as int) =~= text@.take(i as int));
            last_number(slice(text, 0, i).as_str())
        },
        None => last_number(text),
    }
}

// ---------------------------------------------------------------------------
// Laws
// ---------------------------------------------------------------------------

/// Changing the order of the colours twice changes nothing: of the four bytes of a point
/// the first and the third change places, the others stay.
pub proof fn colours_change_places(bgra: Seq<u8>, k: int)
    requires
        bgra.len() % 4 == 0,
    ensures
        rgba_of(bgra).len() == bgra.len(),
        rgba_of(rgba_of(bgra)) == bgra,
        0 <= 4 * k && 4 * k + 3 < bgra.len() ==> rgba_of(bgra)[4 * k] == bgra[4 * k + 2] && rgba_of(bgra)[4 * k + 1]
            == bgra[4 * k + 1] && rgba_of(bgra)[4 * k + 2] == bgra[4 * k] && rgba_of(bgra)[4 * k + 3] == bgra[4 * k + 3],
{
    assert(rgba_of(rgba_of(bgra)) =~= bgra);
}

/// A picture can be turned into another format exactly if it can be read; then the points
/// that are written are those behind its head, as many as its size asks for.
pub proof fn readable_pictures_are_written(b: Seq<u8>)
    ensures
        png_fault(b) is None <==> crate::ocr::frame_fault(b) is None,
        png_fault(b) is None ==> png_points(b) == rgba_of(b.subrange(54, 54 + 4 * (bmp_width(b) * bmp_height(b)))) && png_of(b)
            == png_answer(png_written(bmp_width(b) as u32, bmp_height(b) as u32, png_points(b))),
        png_fault(b) matches Some(e) ==> png_of(b) == Err::<Seq<u8>, Seq<char>>(e),
{
    let n = bmp_width(b) * bmp_height(b);
    assert(n * 4 == 4 * n);
}

/// What the encoder wrote is handed on; an error of it is told, with its words.
pub proof fn encoder_errors_are_told(w: Result<Seq<u8>, (bool, Seq<char>)>)
    ensures
        w matches Ok(bytes) ==> png_answer(w) == Ok::<Seq<u8>, Seq<char>>(bytes),
        w matches Err(e) ==> (png_answer(w) matches Err(t) && finishes_with(t, e.1)),
{
    match w {
        Err(e) => {
            let a = "PNG 像素写入失败："@ + e.1;
            let b = "PNG 头写入失败："@ + e.1;
            assert(a.skip(a.len() - e.1.len()) =~= e.1);
            assert(b.skip(b.len() - e.1.len()) =~= e.1);
        },
        Ok(_) => {},
    }
}

proof fn picture_words_differ()
    ensures
        "model"@ != "prompt"@ && "model"@ != "images"@ && "model"@ != "stream"@ && "model"@ != "options"@ && "prompt"@
            != "images"@ && "prompt"@ != "stream"@ && "prompt"@ != "options"@ && "images"@ != "stream"@ && "images"@
            != "options"@ && "stream"@ != "options"@,
        "model"@ != "messages"@ && "model"@ != "max_tokens"@ && "messages"@ != "max_tokens"@,
        "type"@ != "text"@ && "type"@ != "image_url"@ && "role"@ != "content"@,
{
    reveal_strlit("model");
    reveal_strlit("prompt");
    reveal_strlit("images");
    reveal_strlit("stream");
    reveal_strlit("options");
    reveal_strlit("messages");
    reveal_strlit("max_tokens");
    reveal_strlit("type");
    reveal_strlit("text");
    reveal_strlit("image_url");
    reveal_strlit("role");
    reveal_strlit("content");
    assert("model"@.len() == 5 && "prompt"@[0] == 'p' && "images"@[0] == 'i' && "stream"@[0] == 's' && "options"@[0] == 'o'
        && "model"@[0] == 'm' && "messages"@.len() == 8 && "max_tokens"@.len() == 10 && "type"@[1] == 'y' && "text"@[1]
        == 'e' && "image_url"@.len() == 9 && "type"@.len() == 4 && "role"@.len() == 4 && "content"@.len() == 7);
}

/// The model is asked with the question and the picture, each whole, and told which model
/// it is.
pub proof fn the_model_sees_question_and_picture(model: Seq<char>, prompt: Seq<char>, png: Seq<u8>)
    ensures
        member(ollama_body(model, prompt, png), "model"@) == Some(JsonModel::Text(model)),
        member(ollama_body(model, prompt, png), "prompt"@) == Some(JsonModel::Text(prompt)),
        member(ollama_body(model, prompt, png), "stream"@) == Some(JsonModel::Bool(false)),
        member(ollama_body(model, prompt, png), "images"@) matches Some(JsonModel::List(l)) && l.len() == 1 && l[0]
            == JsonModel::Text(base64_encoded(png)),
        member(openai_body(model, prompt, png), "model"@) == Some(JsonModel::Text(model)),
        member(openai_body(model, prompt, png), "messages"@) matches Some(JsonModel::List(l)) && l.len() == 1 && (member(
            l[0],
            "content"@,
        ) matches Some(JsonModel::List(c)) && c.len() == 2 && member(c[0], "text"@) == Some(JsonModel::Text(prompt)) && (
        member(c[1], "image_url"@) matches Some(u) && (member(u, "url"@) matches Some(JsonModel::Text(t)) && finishes_with(
            t,
            base64_encoded(png),
        ) && begins_with(t, "data:image/png;base64,"@)))),
{
    picture_words_differ();
    let e = base64_encoded(png);
    let t = "data:image/png;base64,"@ + e;
    assert(t.skip(t.len() - e.len()) =~= e);
    assert(t.take("data:image/png;base64,"@.len() as int) =~= "data:image/png;base64,"@);
}

/// The answer about a picture is the text that was answered; a failure tells the error
/// that was stated.
pub proof fn answers_about_pictures_are_read(
    value: JsonModel,
    model: Seq<char>,
    status: Seq<char>,
    t: Seq<char>,
    e: Seq<char>,
    choices: Seq<JsonModel>,
    message: JsonModel,
)
    ensures
        member(value, "response"@) == Some(JsonModel::Text(t)) ==> ollama_answer(true, value, model) == Ok::<
            Seq<char>,
            Seq<char>,
        >(t),
        member(value, "response"@) is None ==> ollama_answer(true, value, model) is Err,
        member(value, "error"@) == Some(JsonModel::Text(e)) ==> (ollama_answer(false, value, model) matches Err(x) && has_text(
            x,
            e,
        )) && (openai_answer(false, status, value) matches Err(x) && finishes_with(x, e)),
        member(value, "choices"@) == Some(JsonModel::List(choices)) && choices.len() > 0 && member(choices[0], "message"@)
            == Some(message) && member(message, "content"@) == Some(JsonModel::Text(t)) ==> openai_answer(
            true,
            status,
            value,
        ) == Ok::<Seq<char>, Seq<char>>(t),
        member(value, "choices"@) is None ==> openai_answer(true, status, value) is Err,
{
    let a = "视觉模型不可用："@;
    let z = "（请先运行 ollama pull "@ + model + "）"@;
    assert(a + e + "（请先运行 ollama pull "@ + model + "）"@ =~= a + e + z);
    parts_stand_in_the_whole(a, e, z, e);
    let x = "视觉端点返回 "@ + status + "："@ + e;
    assert(x.skip(x.len() - e.len()) =~= e);
}

/// Of the models that are listed those are known that have a name, in their order.
pub proof fn named_models_are_known(v: Seq<JsonModel>, m: JsonModel, name: Seq<char>)
    ensures
        listed_names(seq![]).len() == 0,
        member(m, "name"@) == Some(JsonModel::Text(name)) ==> listed_names(v.push(m)) == listed_names(v).push(name),
        member(m, "name"@) is None ==> listed_names(v.push(m)) == listed_names(v),
{
    assert(v.push(m).drop_last() =~= v);
}

/// An answer is yes or no by how it begins, and unknown where it begins with neither.
pub proof fn answers_begin_with_yes_or_no(rest: Seq<char>, upper: Seq<char>)
    ensures
        answer_in("YES"@ + rest) == "yes"@,
        answer_in("NO"@ + rest) == "no"@,
        !begins_with(upper, "YES"@) && !begins_with(upper, "NO"@) ==> answer_in(upper) == "unknown"@,
{
    parts_stand_in_the_whole(rest, "YES"@, rest, rest);
    parts_stand_in_the_whole(rest, "NO"@, rest, rest);
    reveal_strlit("YES");
    reveal_strlit("NO");
    let n = "NO"@ + rest;
    if begins_with(n, "YES"@) {
        assert(n.take(3)[0] == n[0]);
    }
}

/// The number at the end of a text is what stands there of digits and full stops; what
/// stands before a percent sign ends at the first.
pub proof fn numbers_stand_at_the_end(a: Seq<char>, d: Seq<char>, rest: Seq<char>)
    requires
        a.len() == 0 || !is_number_char(a.last()),
        forall|i: int| 0 <= i < d.len() ==> is_number_char(#[trigger] d[i]),
    ensures
        trailing_number(a + d) == d,
        !a.contains('%') && !d.contains('%') ==> before_percent(a + d + "%"@ + rest) == a + d,
    decreases d.len(),
{
    if d.len() == 0 {
        assert(a + d =~= a);
        assert(trailing_number(a) =~= d);
    } else {
        assert((a + d).last() == d[d.len() - 1]);
        assert((a + d).drop_last() =~= a + d.drop_last());
        assert forall|i: int| 0 <= i < d.drop_last().len() implies is_number_char(#[trigger] d.drop_last()[i]) by {
            assert(is_number_char(d[i]));
        }
        numbers_stand_at_the_end(a, d.drop_last(), rest);
        assert(d.drop_last().push(d.last()) =~= d);
    }
    if !a.contains('%') && !d.contains('%') {
        up_to_percent(a + d, rest);
    }
}

proof fn up_to_percent(w: Seq<char>, rest: Seq<char>)
    requires
        !w.contains('%'),
    ensures
        before_percent(w + "%"@ + rest) == w,
{
    reveal_strlit("%");
    let p = "%"@;
    let full = w + p + rest;
    let k = w.len() as int;
    assert(full.subrange(k, k + 1) =~= p);
    assert forall|j: int| 0 <= j < k implies full.subrange(j, #[trigger] (j + p.len())) != p by {
        assert(full.subrange(j, j + 1)[0] == w[j]);
        if w[j] == '%' {
            assert(w.contains('%'));
        }
    }
    first_position_is(full, p, k);
    assert(full.take(k) =~= w);
}

/// Which provider is asked goes by what was set, in lower case, and else is the local
/// one; each has a model of its own.
pub proof fn providers_have_their_models(env: VisionEnv, p: String)
    ensures
        env.provider == Some(p) ==> provider_of(env) == unicode_lower(p@),
        env.provider is None ==> provider_of(env) == unicode_lower("ollama"@),
        default_model("openai"@) == "gpt-4o-mini"@,
        default_model("ollama"@) == "qwen2.5vl:3b"@,
{
    reveal_strlit("openai");
    reveal_strlit("ollama");
    assert("openai"@[1] == 'p' && "ollama"@[1] == 'l');
}

/// What is no part of a number is blanked out, and all that is stands where it stood.
pub proof fn blanking_keeps_the_numbers(s: Seq<char>, i: int)
    requires
        0 <= i < s.len(),
    ensures
        numbers_only(s).len() == s.len(),
        is_number_char(s[i]) ==> numbers_only(s)[i] == s[i],
        !is_number_char(s[i]) ==> numbers_only(s)[i] == ' ',
        is_number_char('.') && is_number_char('0') && is_number_char('9') && !is_number_char('-') && !is_number_char(' '),
{
}

/// An answer tells one thing.
pub proof fn answers_tell_one_thing(r: Result<String, String>, m: Result<Seq<char>, Seq<char>>, n: Result<Seq<char>, Seq<char>>)
    ensures
        tells(r, m) && tells(r, n) ==> m == n,
        r matches Ok(t) ==> tells(r, Ok::<Seq<char>, Seq<char>>(t@)),
        r matches Err(e) ==> tells(r, Err::<Seq<char>, Seq<char>>(e@)),
{
}

} // verus!
