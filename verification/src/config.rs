//! Configuration of the service, from the values of its environment.

use vstd::prelude::*;
use vstd::string::*;
use crate::errors::{AppError, AppErrorView};
use crate::text::{join2, join3};

verus! {

/// Why the configuration could not be loaded.
#[derive(Clone, Debug, PartialEq, Eq)]
pub enum ConfigError {
    /// A required variable is not set.
    MissingVar(String),
    /// A variable holds something unusable: its name, and what is wrong.
    InvalidVar(String, String),
    /// The environment file could not be read; the text says why.
    DotEnvError(String),
}

/// Mathematical model of a `ConfigError`.
pub enum ConfigErrorView {
    MissingVar(Seq<char>),
    InvalidVar(Seq<char>, Seq<char>),
    DotEnvError(Seq<char>),
}

impl View for ConfigError {
    type V = ConfigErrorView;

    open spec fn view(&self) -> ConfigErrorView {
        match self {
            ConfigError::MissingVar(name) => ConfigErrorView::MissingVar(name@),
            ConfigError::InvalidVar(name, detail) => ConfigErrorView::InvalidVar(name@, detail@),
            ConfigError::DotEnvError(detail) => ConfigErrorView::DotEnvError(detail@),
        }
    }
}

impl ConfigErrorView {
    /// The message of the error.
    pub open spec fn text(self) -> Seq<char> {
        match self {
            ConfigErrorView::MissingVar(name) => "Missing required environment variable: "@ + name,
            ConfigErrorView::InvalidVar(name, detail) => {
                "Invalid environment variable format for "@ + name + ": "@ + detail
            },
            ConfigErrorView::DotEnvError(detail) => "Failed to load .env file: "@ + detail,
        }
    }
}

impl ConfigError {
    /// The message of the error.
    pub fn to_string(&self) -> (message: String)
        ensures
            message@ == self@.text(),
    {
        match self {
            ConfigError::MissingVar(name) => join2(
                "Missing required environment variable: ",
                name.as_str(),
            ),
            ConfigError::InvalidVar(name, detail) => {
                let mut message = join3(
                    "Invalid environment variable format for ",
                    name.as_str(),
                    ": ",
                );
                message.append(detail.as_str());
                message
            },
            ConfigError::DotEnvError(detail) => join2("Failed to load .env file: ", detail.as_str()),
        }
    }

    /// The error of the web layer for an unusable configuration: it carries
    /// the message of the error.
    pub fn into_app_error(&self) -> (error: AppError)
        ensures
            error@ == AppErrorView::ConfigError(self@.text()),
    {
        AppError::ConfigError(self.to_string())
    }
}

/// The variables of the environment that the service reads, each as far as
/// it is set.
#[derive(Clone, Debug, PartialEq, Eq)]
pub struct Environment {
    /// `APP_SERVER_ADDRESS`
    pub server_address: Option<String>,
    /// `APP_S3_BUCKET_NAME`
    pub s3_bucket_name: Option<String>,
    /// `APP_DYNAMODB_TABLE_NAME`
    pub dynamodb_table_name: Option<String>,
    /// `AWS_REGION`
    pub aws_region: Option<String>,
    /// `AWS_DEFAULT_REGION`
    pub aws_default_region: Option<String>,
    /// `AWS_ENDPOINT_URL`
    pub aws_endpoint_url: Option<String>,
}

/// The configuration of the service.
#[derive(Clone, Debug, PartialEq, Eq)]
pub struct Config {
    /// Address on which the service listens, as text.
    pub bind_address: String,
    pub meme_bucket_name: String,
    pub dynamodb_table_name: String,
    pub aws_region: String,
    /// Endpoint to use in place of the backends' own, if any.
    pub localstack_endpoint: Option<String>,
}

/// Mathematical model of a `Config`.
pub struct ConfigView {
    pub bind_address: Seq<char>,
    pub meme_bucket_name: Seq<char>,
    pub dynamodb_table_name: Seq<char>,
    pub aws_region: Seq<char>,
    pub localstack_endpoint: Option<Seq<char>>,
}

impl View for Config {
    type V = ConfigView;

    open spec fn view(&self) -> ConfigView {
        ConfigView {
            bind_address: self.bind_address@,
            meme_bucket_name: self.meme_bucket_name@,
            dynamodb_table_name: self.dynamodb_table_name@,
            aws_region: self.aws_region@,
            localstack_endpoint: self.localstack_endpoint.deep_view(),
        }
    }
}

/// The address on which the service listens: the one set, else every
/// interface on port 3000.
pub open spec fn address_of(server_address: Option<Seq<char>>) -> Seq<char> {
    match server_address {
        Some(address) => address,
        None => "0.0.0.0:3000"@,
    }
}

/// The region of the backends: `AWS_REGION` where set, else
/// `AWS_DEFAULT_REGION` where set, else `ca-central-1`.
pub open spec fn region_of(aws_region: Option<Seq<char>>, aws_default_region: Option<Seq<char>>)
    -> Seq<char> {
    match aws_region {
        Some(region) => region,
        None => match aws_default_region {
            Some(region) => region,
            None => "ca-central-1"@,
        },
    }
}

/// The configuration that an environment gives, where `address_error` says
/// what is wrong with the listening address, if anything is.
///
/// An unusable address is reported first, then a missing bucket name, then a
/// missing table name.
pub open spec fn loaded(
    server_address: Option<Seq<char>>,
    s3_bucket_name: Option<Seq<char>>,
    dynamodb_table_name: Option<Seq<char>>,
    aws_region: Option<Seq<char>>,
    aws_default_region: Option<Seq<char>>,
    aws_endpoint_url: Option<Seq<char>>,
    address_error: Option<Seq<char>>,
) -> Result<ConfigView, ConfigErrorView> {
    if address_error is Some {
        Err(ConfigErrorView::InvalidVar("APP_SERVER_ADDRESS"@, address_error->0))
    } else if s3_bucket_name is None {
        Err(ConfigErrorView::MissingVar("APP_S3_BUCKET_NAME"@))
    } else if dynamodb_table_name is None {
        Err(ConfigErrorView::MissingVar("APP_DYNAMODB_TABLE_NAME"@))
    } else {
        Ok(
            ConfigView {
                bind_address: address_of(server_address),
                meme_bucket_name: s3_bucket_name->0,
                dynamodb_table_name: dynamodb_table_name->0,
                aws_region: region_of(aws_region, aws_default_region),
                localstack_endpoint: aws_endpoint_url,
            },
        )
    }
}

/// Model of the result of loading.
pub open spec fn load_view(result: Result<Config, ConfigError>) -> Result<
    ConfigView,
    ConfigErrorView,
> {
    match result {
        Ok(config) => Ok(config@),
        Err(error) => Err(error@),
    }
}

impl Environment {
    /// The address on which the service is to listen, as text.
    pub fn server_address(&self) -> (address: String)
        ensures
            address@ == address_of(self.server_address.deep_view()),
    {
        match &self.server_address {
            Some(address) => address.clone(),
            None => String::from_str("0.0.0.0:3000"),
        }
    }
}

impl Config {
    /// Loads the configuration from the values of the environment.
    /// `address_error` is what the parsing of `server_address()` as a socket
    /// address reported, if it failed.
    pub fn load(environment: Environment, address_error: Option<String>) -> (result: Result<
        Config,
        ConfigError,
    >)
        ensures
            load_view(result) == loaded(
                environment.server_address.deep_view(),
                environment.s3_bucket_name.deep_view(),
                environment.dynamodb_table_name.deep_view(),
                environment.aws_region.deep_view(),
                environment.aws_default_region.deep_view(),
                environment.aws_endpoint_url.deep_view(),
                address_error.deep_view(),
            ),
    {
        let bind_address = environment.server_address();
        let Environment {
            server_address: _,
            s3_bucket_name,
            dynamodb_table_name,
            aws_region,
            aws_default_region,
            aws_endpoint_url,
        } = environment;
        if let Some(detail) = address_error {
            return Err(ConfigError::InvalidVar(String::from_str("APP_SERVER_ADDRESS"), detail));
        }
        let meme_bucket_name = match s3_bucket_name {
            Some(name) => name,
            None => {
                return Err(ConfigError::MissingVar(String::from_str("APP_S3_BUCKET_NAME")));
            },
        };
        let dynamodb_table_name = match dynamodb_table_name {
            Some(name) => name,
            None => {
                return Err(ConfigError::MissingVar(String::from_str("APP_DYNAMODB_TABLE_NAME")));
            },
        };
        let aws_region = match aws_region {
            Some(region) => region,
            None => match aws_default_region {
                Some(region) => region,
                None => String::from_str("ca-central-1"),
            },
        };
        Ok(
            Config {
                bind_address,
                meme_bucket_name,
                dynamodb_table_name,
                aws_region,
                localstack_endpoint: aws_endpoint_url,
            },
        )
    }
}

} // verus!
