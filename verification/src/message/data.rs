//! Validated multimodal data content blocks.
use base64::Engine;
use vstd::prelude::*;

use super::{generate_id, generate_timestamp, is_generated_id, is_timestamp};
use crate::text::{blank, concat2, is_blank, text_option};

verus! {

/// What `base64` decodes of a text in the standard alphabet with padding: the
/// bytes, or the message of its error.
pub uninterp spec fn decoded_base64(text: Seq<char>) -> Result<Seq<u8>, Seq<char>>;

/// What `url` reads in a text: the absolute URL in its normal form, or the message
/// of its error.
pub uninterp spec fn parsed_url(text: Seq<char>) -> Result<Seq<char>, Seq<char>>;

/// `Engine::decode` of `base64` with `STANDARD`: the decoded bytes, or what is
/// wrong with the text. The result depends on the text alone.
#[verifier::external_body]
fn decode_base64(text: &str) -> (result: Result<Vec<u8>, String>)
    ensures
        match (result, decoded_base64(text@)) {
            (Ok(bytes), Ok(decoded)) => bytes@ == decoded,
            (Err(message), Err(fault)) => message@ == fault,
            _ => false,
        },
{
    base64::engine::general_purpose::STANDARD.decode(text).map_err(|error| error.to_string())
}

/// `Url::parse` of `url`: the absolute URL in its normal form, or what is wrong
/// with the text. The result depends on the text alone.
#[verifier::external_body]
pub(crate) fn parse_url(text: &str) -> (result: Result<String, String>)
    ensures
        match (result, parsed_url(text@)) {
            (Ok(url), Ok(parsed)) => url@ == parsed,
            (Err(message), Err(fault)) => message@ == fault,
            _ => false,
        },
{
    url::Url::parse(text).map(String::from).map_err(|error| error.to_string())
}

/// An error returned when constructing or decoding a data block.
#[derive(Debug, PartialEq, Eq)]
pub enum DataBlockError {
    /// The media type was empty or contained only whitespace.
    EmptyMediaType,
    /// The provided Base64 data was malformed, with the decoder's message.
    InvalidBase64(String),
    /// The provided URL was malformed or relative, with the parser's message.
    InvalidUrl(String),
}

impl Clone for DataBlockError {
    fn clone(&self) -> (copied: DataBlockError)
        ensures
            copied == self,
    {
        match self {
            DataBlockError::EmptyMediaType => DataBlockError::EmptyMediaType,
            DataBlockError::InvalidBase64(message) => DataBlockError::InvalidBase64(message.clone()),
            DataBlockError::InvalidUrl(message) => DataBlockError::InvalidUrl(message.clone()),
        }
    }
}

/// What a data block error says.
pub open spec fn data_error_text(error: DataBlockError) -> Seq<char> {
    match error {
        DataBlockError::EmptyMediaType => "media type cannot be empty"@,
        DataBlockError::InvalidBase64(message) => "invalid Base64 data: "@ + message@,
        DataBlockError::InvalidUrl(message) => "invalid URL: "@ + message@,
    }
}

impl DataBlockError {
    /// What the error says.
    pub fn to_string(&self) -> (text: String)
        ensures
            text@ == data_error_text(*self),
    {
        match self {
            DataBlockError::EmptyMediaType => "media type cannot be empty".to_owned(),
            DataBlockError::InvalidBase64(message) => concat2(
                "invalid Base64 data: ",
                message.as_str(),
            ),
            DataBlockError::InvalidUrl(message) => concat2("invalid URL: ", message.as_str()),
        }
    }
}

/// Inline Base64-encoded binary data.
#[derive(Debug, PartialEq, Eq)]
pub struct Base64Source {
    pub(crate) data: String,
    pub(crate) media_type: String,
}

/// Binary data addressed by an absolute URL.
#[derive(Debug, PartialEq, Eq)]
pub struct UrlSource {
    pub(crate) url: String,
    pub(crate) media_type: String,
}

/// What a Base64 source holds.
#[verifier::ext_equal]
pub struct Base64View {
    pub data: Seq<char>,
    pub media_type: Seq<char>,
}

/// What a URL source holds.
#[verifier::ext_equal]
pub struct UrlView {
    pub url: Seq<char>,
    pub media_type: Seq<char>,
}

impl View for Base64Source {
    type V = Base64View;

    open(crate) spec fn view(&self) -> Base64View {
        Base64View { data: self.data@, media_type: self.media_type@ }
    }
}

impl View for UrlSource {
    type V = UrlView;

    open(crate) spec fn view(&self) -> UrlView {
        UrlView { url: self.url@, media_type: self.media_type@ }
    }
}

impl Clone for Base64Source {
    fn clone(&self) -> (copied: Base64Source)
        ensures
            copied@ == self@,
    {
        Base64Source { data: self.data.clone(), media_type: self.media_type.clone() }
    }
}

impl Clone for UrlSource {
    fn clone(&self) -> (copied: UrlSource)
        ensures
            copied@ == self@,
    {
        UrlSource { url: self.url.clone(), media_type: self.media_type.clone() }
    }
}

/// Whether a result of making a Base64 source is right for its arguments.
pub open spec fn base64_outcome(
    result: Result<Base64View, DataBlockError>,
    data: Seq<char>,
    media_type: Seq<char>,
) -> bool {
    match decoded_base64(data) {
        Err(fault) => result matches Err(DataBlockError::InvalidBase64(message)) && message@
            == fault,
        Ok(_) => if blank(media_type) {
            result == Err::<Base64View, DataBlockError>(DataBlockError::EmptyMediaType)
        } else {
            result == Ok::<Base64View, DataBlockError>(Base64View { data, media_type })
        },
    }
}

/// Whether a result of making a URL source is right for its arguments.
pub open spec fn url_outcome(
    result: Result<UrlView, DataBlockError>,
    url: Seq<char>,
    media_type: Seq<char>,
) -> bool {
    match parsed_url(url) {
        Err(fault) => result matches Err(DataBlockError::InvalidUrl(message)) && message@ == fault,
        Ok(parsed) => if blank(media_type) {
            result == Err::<UrlView, DataBlockError>(DataBlockError::EmptyMediaType)
        } else {
            result == Ok::<UrlView, DataBlockError>(UrlView { url: parsed, media_type })
        },
    }
}

/// A result with the value's view in place of the value.
pub open spec fn result_view<T: View, E>(result: Result<T, E>) -> Result<T::V, E> {
    match result {
        Ok(value) => Ok(value@),
        Err(error) => Err(error),
    }
}

impl Base64Source {
    /// Creates a validated Base64 source.
    pub fn new(data: &str, media_type: &str) -> (result: Result<Base64Source, DataBlockError>)
        ensures
            base64_outcome(result_view(result), data@, media_type@),
    {
        match decode_base64(data) {
            Err(message) => Err(DataBlockError::InvalidBase64(message)),
            Ok(_) => match validate_media_type(media_type) {
                Err(error) => Err(error),
                Ok(media_type) => Ok(Base64Source { data: data.to_owned(), media_type }),
            },
        }
    }

    /// The Base64-encoded payload.
    pub fn data(&self) -> (data: &str)
        ensures
            data@ == self@.data,
    {
        self.data.as_str()
    }

    /// The payload's media type.
    pub fn media_type(&self) -> (media_type: &str)
        ensures
            media_type@ == self@.media_type,
    {
        self.media_type.as_str()
    }
}

impl UrlSource {
    /// Creates a validated URL source.
    pub fn new(url: &str, media_type: &str) -> (result: Result<UrlSource, DataBlockError>)
        ensures
            url_outcome(result_view(result), url@, media_type@),
    {
        match parse_url(url) {
            Err(message) => Err(DataBlockError::InvalidUrl(message)),
            Ok(url) => match validate_media_type(media_type) {
                Err(error) => Err(error),
                Ok(media_type) => Ok(UrlSource { url, media_type }),
            },
        }
    }

    /// The absolute data URL in its normal form.
    pub fn url(&self) -> (url: &str)
        ensures
            url@ == self@.url,
    {
        self.url.as_str()
    }

    /// The payload's media type.
    pub fn media_type(&self) -> (media_type: &str)
        ensures
            media_type@ == self@.media_type,
    {
        self.media_type.as_str()
    }
}

/// The source of a binary data block.
#[derive(Debug, PartialEq, Eq)]
pub enum DataSource {
    /// Inline Base64-encoded data.
    Base64(Base64Source),
    /// Data available at an absolute URL.
    Url(UrlSource),
}

/// What a data source holds.
#[verifier::ext_equal]
pub enum SourceView {
    Base64(Base64View),
    Url(UrlView),
}

impl View for DataSource {
    type V = SourceView;

    open spec fn view(&self) -> SourceView {
        match self {
            DataSource::Base64(source) => SourceView::Base64(source@),
            DataSource::Url(source) => SourceView::Url(source@),
        }
    }
}

impl Clone for DataSource {
    fn clone(&self) -> (copied: DataSource)
        ensures
            copied@ == self@,
    {
        match self {
            DataSource::Base64(source) => DataSource::Base64(source.clone()),
            DataSource::Url(source) => DataSource::Url(source.clone()),
        }
    }
}

/// A binary or multimodal message content block.
#[derive(Debug, PartialEq, Eq)]
pub struct DataBlock {
    /// The unique block identifier.
    pub id: String,
    /// The source of the block's binary data.
    pub source: DataSource,
    /// An optional file or display name.
    pub name: Option<String>,
    /// The local creation time in ISO 8601 format.
    pub created_at: String,
    /// The completion time for streamed content, when available.
    pub finished_at: Option<String>,
}

/// What a data block holds.
#[verifier::ext_equal]
pub struct DataView {
    pub id: Seq<char>,
    pub source: SourceView,
    pub name: Option<Seq<char>>,
    pub created_at: Seq<char>,
    pub finished_at: Option<Seq<char>>,
}

impl View for DataBlock {
    type V = DataView;

    open spec fn view(&self) -> DataView {
        DataView {
            id: self.id@,
            source: self.source@,
            name: text_option(self.name),
            created_at: self.created_at@,
            finished_at: text_option(self.finished_at),
        }
    }
}

impl Clone for DataBlock {
    fn clone(&self) -> (copied: DataBlock)
        ensures
            copied@ == self@,
    {
        DataBlock {
            id: self.id.clone(),
            source: self.source.clone(),
            name: self.name.clone(),
            created_at: self.created_at.clone(),
            finished_at: self.finished_at.clone(),
        }
    }
}

/// Whether a block is a new data block with a source.
pub open spec fn is_new_data(block: DataView, source: SourceView) -> bool {
    &&& block.source == source
    &&& block.name is None
    &&& is_generated_id(block.id)
    &&& is_timestamp(block.created_at)
    &&& block.finished_at is None
}

impl DataBlock {
    /// Creates a block containing inline Base64-encoded data.
    pub fn base64(data: &str, media_type: &str) -> (result: Result<DataBlock, DataBlockError>)
        ensures
            match result {
                Ok(block) => block@.source matches SourceView::Base64(source) && base64_outcome(
                    Ok(source),
                    data@,
                    media_type@,
                ) && is_new_data(block@, block@.source),
                Err(error) => base64_outcome(Err(error), data@, media_type@),
            },
    {
        match Base64Source::new(data, media_type) {
            Ok(source) => Ok(DataBlock::new(DataSource::Base64(source))),
            Err(error) => Err(error),
        }
    }

    /// Creates a block referring to data at an absolute URL.
    pub fn url(url: &str, media_type: &str) -> (result: Result<DataBlock, DataBlockError>)
        ensures
            match result {
                Ok(block) => block@.source matches SourceView::Url(source) && url_outcome(
                    Ok(source),
                    url@,
                    media_type@,
                ) && is_new_data(block@, block@.source),
                Err(error) => url_outcome(Err(error), url@, media_type@),
            },
    {
        match UrlSource::new(url, media_type) {
            Ok(source) => Ok(DataBlock::new(DataSource::Url(source))),
            Err(error) => Err(error),
        }
    }

    /// Assigns a file or display name to this block.
    pub fn with_name(self, name: &str) -> (block: DataBlock)
        ensures
            block@ == (DataView { name: Some(name@), ..self@ }),
    {
        let mut block = self;
        block.name = Some(name.to_owned());
        block
    }

    fn new(source: DataSource) -> (block: DataBlock)
        ensures
            is_new_data(block@, source@),
    {
        DataBlock {
            id: generate_id(),
            source,
            name: None,
            created_at: generate_timestamp(),
            finished_at: None,
        }
    }
}

/// A media type that is not blank.
pub fn validate_media_type(media_type: &str) -> (result: Result<String, DataBlockError>)
    ensures
        match result {
            Ok(kept) => !blank(media_type@) && kept@ == media_type@,
            Err(error) => blank(media_type@) && error == DataBlockError::EmptyMediaType,
        },
{
    if is_blank(media_type) {
        Err(DataBlockError::EmptyMediaType)
    } else {
        Ok(media_type.to_owned())
    }
}

} // verus!
