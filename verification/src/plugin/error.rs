//! The named failure modes of the plugin host.

use vstd::prelude::*;
use crate::text::concat;

verus! {

#[derive(Debug)]
pub enum PluginError {
    /// No active plugin has the requested id.
    PluginNotFound(String),
    /// The plugin does not export the requested function.
    FunctionNotFound(String),
    /// The module bytes could not be compiled.
    WasmCompileError(String),
    /// The module imports something the sandbox does not offer.
    WasmImportError(String),
    /// The compiled module could not be instantiated.
    WasmInstantiationError(String),
    /// A call into the module failed, or returned something malformed.
    WasmExecutionError(String),
    /// The sandbox environment could not be set up.
    WasiError(String),
    /// The plugin's self-description could not be obtained.
    MetadataError(String),
    /// The file is not a usable plugin file.
    InvalidPluginFile(String),
    /// Text was not valid UTF-8, or not the expected JSON.
    SerializationError(String),
    /// The directory watcher failed.
    WatcherError(String),
    /// Reading the plugin file failed.
    IoError(String),
    /// Any other failure inside the host.
    Internal(String),
}

/// A failure as plain data: its kind and its detail.
pub enum PluginFailure {
    PluginNotFound(Seq<char>),
    FunctionNotFound(Seq<char>),
    WasmCompileError(Seq<char>),
    WasmImportError(Seq<char>),
    WasmInstantiationError(Seq<char>),
    WasmExecutionError(Seq<char>),
    WasiError(Seq<char>),
    MetadataError(Seq<char>),
    InvalidPluginFile(Seq<char>),
    SerializationError(Seq<char>),
    WatcherError(Seq<char>),
    IoError(Seq<char>),
    Internal(Seq<char>),
}

/// A failure as plain data.
pub open spec fn failure_of(e: PluginError) -> PluginFailure {
    match e {
        PluginError::PluginNotFound(s) => PluginFailure::PluginNotFound(s@),
        PluginError::FunctionNotFound(s) => PluginFailure::FunctionNotFound(s@),
        PluginError::WasmCompileError(s) => PluginFailure::WasmCompileError(s@),
        PluginError::WasmImportError(s) => PluginFailure::WasmImportError(s@),
        PluginError::WasmInstantiationError(s) => PluginFailure::WasmInstantiationError(s@),
        PluginError::WasmExecutionError(s) => PluginFailure::WasmExecutionError(s@),
        PluginError::WasiError(s) => PluginFailure::WasiError(s@),
        PluginError::MetadataError(s) => PluginFailure::MetadataError(s@),
        PluginError::InvalidPluginFile(s) => PluginFailure::InvalidPluginFile(s@),
        PluginError::SerializationError(s) => PluginFailure::SerializationError(s@),
        PluginError::WatcherError(s) => PluginFailure::WatcherError(s@),
        PluginError::IoError(s) => PluginFailure::IoError(s@),
        PluginError::Internal(s) => PluginFailure::Internal(s@),
    }
}

/// The fixed text that introduces each kind of failure.
pub open spec fn prefix_of(failure: PluginFailure) -> Seq<char> {
    match failure {
        PluginFailure::PluginNotFound(_) => "Plugin não encontrado: "@,
        PluginFailure::FunctionNotFound(_) => "Função do plugin não encontrada: "@,
        PluginFailure::WasmCompileError(_) => "Erro ao compilar WASM: "@,
        PluginFailure::WasmImportError(_) => "Erro de importação WASM: "@,
        PluginFailure::WasmInstantiationError(_) => "Erro ao instanciar WASM: "@,
        PluginFailure::WasmExecutionError(_) => "Erro ao executar função WASM: "@,
        PluginFailure::WasiError(_) => "Erro de configuração WASI: "@,
        PluginFailure::MetadataError(_) => "Erro ao extrair metadados do plugin: "@,
        PluginFailure::InvalidPluginFile(_) => "Formato inválido do arquivo de plugin: "@,
        PluginFailure::SerializationError(_) => "Erro de serialização/deserialização: "@,
        PluginFailure::WatcherError(_) => "Erro ao observar mudanças no diretório de plugins: "@,
        PluginFailure::IoError(_) => "Erro de I/O: "@,
        PluginFailure::Internal(_) => "Erro interno do gerenciador de plugins: "@,
    }
}

/// The detail of a failure.
pub open spec fn detail_of(failure: PluginFailure) -> Seq<char> {
    match failure {
        PluginFailure::PluginNotFound(s) => s,
        PluginFailure::FunctionNotFound(s) => s,
        PluginFailure::WasmCompileError(s) => s,
        PluginFailure::WasmImportError(s) => s,
        PluginFailure::WasmInstantiationError(s) => s,
        PluginFailure::WasmExecutionError(s) => s,
        PluginFailure::WasiError(s) => s,
        PluginFailure::MetadataError(s) => s,
        PluginFailure::InvalidPluginFile(s) => s,
        PluginFailure::SerializationError(s) => s,
        PluginFailure::WatcherError(s) => s,
        PluginFailure::IoError(s) => s,
        PluginFailure::Internal(s) => s,
    }
}

/// The message of a failure: the kind's prefix, then the detail.
pub open spec fn message_of(failure: PluginFailure) -> Seq<char> {
    prefix_of(failure) + detail_of(failure)
}

impl PluginError {
    /// The detail carried by the error, whatever its kind.
    pub open spec fn detail(self) -> Seq<char> {
        detail_of(failure_of(self))
    }

    /// The fixed text that introduces each kind of error.
    pub open spec fn prefix(self) -> Seq<char> {
        prefix_of(failure_of(self))
    }

    /// The message shown to a caller: the kind's prefix, then the detail.
    pub open spec fn message_text(self) -> Seq<char> {
        self.prefix() + self.detail()
    }

    /// The message shown to a caller.
    pub fn message(&self) -> (s: String)
        ensures
            s@ == self.message_text(),
    {
        match self {
            PluginError::PluginNotFound(d) => concat("Plugin não encontrado: ", d.as_str()),
            PluginError::FunctionNotFound(d) => concat("Função do plugin não encontrada: ", d.as_str()),
            PluginError::WasmCompileError(d) => concat("Erro ao compilar WASM: ", d.as_str()),
            PluginError::WasmImportError(d) => concat("Erro de importação WASM: ", d.as_str()),
            PluginError::WasmInstantiationError(d) => concat("Erro ao instanciar WASM: ", d.as_str()),
            PluginError::WasmExecutionError(d) => concat("Erro ao executar função WASM: ", d.as_str()),
            PluginError::WasiError(d) => concat("Erro de configuração WASI: ", d.as_str()),
            PluginError::MetadataError(d) => concat("Erro ao extrair metadados do plugin: ", d.as_str()),
            PluginError::InvalidPluginFile(d) => concat("Formato inválido do arquivo de plugin: ", d.as_str()),
            PluginError::SerializationError(d) => concat("Erro de serialização/deserialização: ", d.as_str()),
            PluginError::WatcherError(d) => concat("Erro ao observar mudanças no diretório de plugins: ", d.as_str()),
            PluginError::IoError(d) => concat("Erro de I/O: ", d.as_str()),
            PluginError::Internal(d) => concat("Erro interno do gerenciador de plugins: ", d.as_str()),
        }
    }
}

} // verus!
